use plinken_wclap::osc::OscMode;
use plinken_wclap::synth_params::{param_defs, Param, PARAM_COUNT};

#[test]
fn osc_modes_by_index() {
    assert_eq!(OscMode::from_index(0), OscMode::Analog);
    assert_eq!(OscMode::from_index(1), OscMode::Wavetable);
    assert_eq!(OscMode::from_index(2), OscMode::Granular);
    assert_eq!(OscMode::from_index(3), OscMode::Physical);
    assert_eq!(OscMode::from_index(4), OscMode::Analog);
    assert_eq!(OscMode::default(), OscMode::Analog);
}

#[test]
fn param_ids_are_positions() {
    for i in 0..PARAM_COUNT {
        assert_eq!(Param::from_id(i).unwrap().id(), i);
    }
    assert_eq!(Param::from_id(PARAM_COUNT), None);
    assert_eq!(Param::Osc1Shape.id(), 0);
    assert_eq!(Param::FilterFreq.id(), 22);
    assert_eq!(Param::MasterTune.id(), 73);
}

#[test]
fn ids_sequential_and_count_matches() {
    let defs = param_defs();
    assert_eq!(defs.len(), PARAM_COUNT);
    for (i, def) in defs.iter().enumerate() {
        assert_eq!(def.id as usize, i);
        assert_eq!(def.name.last(), Some(&0u8), "name must be NUL-terminated");
        let (min, max, default) = (
            f64::from_bits(def.min_bits),
            f64::from_bits(def.max_bits),
            f64::from_bits(def.default_bits),
        );
        assert!(min <= default && default <= max);
    }
}

#[test]
fn synth_param_rows() {
    let defs = param_defs();
    assert_eq!(defs[22].name, b"filter_freq\0".to_vec());
    assert_eq!(f64::from_bits(defs[22].default_bits), 20000.0);
    assert_eq!(defs[19].flags, 32 | 1);
    assert_eq!(defs[8].flags, 32);
    assert_eq!(f64::from_bits(defs[59].max_bits), 0.95);
    assert_eq!(defs[73].module, vec![0]);
}
