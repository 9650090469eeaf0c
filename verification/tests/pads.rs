use plinken_wclap::pads::{
    note_to_pad, pad_for_note, pad_note, pad_notes, pad_value_index, param_defs, param_index, PadParam,
    PADS, PAD_ID_BASE, PAD_ID_STRIDE, PAD_PARAMS, PARAM_COUNT,
};

#[test]
fn param_table_shape() {
    let defs = param_defs();
    assert_eq!(defs.len(), 2 + PADS * PAD_PARAMS);
    for (i, def) in defs.iter().enumerate() {
        assert_eq!(param_index(def.id), Some(i), "id {:#x}", def.id);
        assert_eq!(def.name.last(), Some(&0u8));
        let (min, max, default) = (
            f64::from_bits(def.min_bits),
            f64::from_bits(def.max_bits),
            f64::from_bits(def.default_bits),
        );
        assert!(min <= default && default <= max);
    }
    assert_eq!(param_index(2), None);
    assert_eq!(param_index(PAD_ID_BASE + 63 * PAD_ID_STRIDE + 12), None);
    assert_eq!(param_index(PAD_ID_BASE + 64 * PAD_ID_STRIDE), None);
}

#[test]
fn bank_a_is_the_classic_mpc_layout() {
    let expect: [u8; 16] = [37, 36, 42, 82, 40, 38, 46, 44, 48, 47, 45, 43, 49, 55, 51, 53];
    assert_eq!(&pad_notes()[..16], &expect);
    assert_eq!(pad_for_note(36, 16), Some(1));
    assert_eq!(pad_for_note(38, 16), Some(5));
    assert_eq!(pad_for_note(42, 16), Some(2));
    assert_eq!(pad_for_note(46, 16), Some(6));
}

#[test]
fn pad_count_gates_higher_banks() {
    let bank_b_note = pad_notes()[16];
    assert_eq!(pad_for_note(bank_b_note as i16, 16), None);
    assert_eq!(pad_for_note(bank_b_note as i16, 32), Some(16));
}

#[test]
fn root_key_defaults_to_trigger_note() {
    let defs = param_defs();
    let notes = pad_notes();
    for pad in 0..PADS {
        let def = &defs[pad_value_index(pad, PadParam::RootKey)];
        assert_eq!(f64::from_bits(def.default_bits) as u8, notes[pad]);
    }
}

#[test]
fn no_duplicate_pad_notes() {
    let mut seen = [false; 128];
    for &n in pad_notes().iter() {
        assert!(!seen[n as usize], "duplicate note {n}");
        seen[n as usize] = true;
    }
}

// ---------------------------------------------------------------------------
// Further cases
// ---------------------------------------------------------------------------

#[test]
fn later_banks_count_up_from_50_skipping_bank_a() {
    let notes = pad_notes();
    assert_eq!(&notes[16..22], &[50, 52, 54, 56, 57, 58]);
    assert_eq!(notes[44], 81);
    assert_eq!(notes[45], 83);
    assert_eq!(notes[63], 101);
    assert_eq!(pad_note(63), 101);
}

#[test]
fn notes_map_back_to_their_pads() {
    for pad in 0..PADS {
        assert_eq!(note_to_pad(pad_note(pad)) as usize, pad);
        assert_eq!(pad_for_note(pad_note(pad) as i16, 64), Some(pad));
    }
    assert_eq!(note_to_pad(0), 0xFF);
    assert_eq!(note_to_pad(127), 0xFF);
}

#[test]
fn keys_outside_midi_and_unmapped_notes_are_ignored() {
    assert_eq!(pad_for_note(-1, 64), None);
    assert_eq!(pad_for_note(128, 64), None);
    assert_eq!(pad_for_note(127, 64), None);
    assert_eq!(pad_for_note(37, 0), None);
    assert_eq!(pad_for_note(37, 1000), Some(0));
}

#[test]
fn param_ids_and_indices() {
    assert_eq!(param_index(0), Some(0));
    assert_eq!(param_index(1), Some(1));
    assert_eq!(param_index(0xff), None);
    assert_eq!(param_index(0x100), Some(2));
    assert_eq!(param_index(0x10b), Some(13));
    assert_eq!(param_index(0x10c), None);
    assert_eq!(param_index(0x110), Some(14));
    assert_eq!(param_index(0x4ff), None);
    assert_eq!(pad_value_index(0, PadParam::Level), 2);
    assert_eq!(pad_value_index(1, PadParam::Tune), 15);
    assert_eq!(pad_value_index(63, PadParam::RootKey), PARAM_COUNT - 1);
}

#[test]
fn param_names_and_groups() {
    let defs = param_defs();
    assert_eq!(defs[0].name, b"Master Level\0".to_vec());
    assert_eq!(defs[1].name, b"Pad Count\0".to_vec());
    assert_eq!(defs[1].flags, 1 | 4);
    assert_eq!(defs[2].name, b"Pad A01 Level\0".to_vec());
    assert_eq!(defs[2].module, b"Pads/A01\0".to_vec());
    let d = &defs[pad_value_index(17, PadParam::FilterType)];
    assert_eq!(d.name, b"Pad B02 Filter Type\0".to_vec());
    assert_eq!(d.flags, 32 | 1);
    assert_eq!(f64::from_bits(d.max_bits), 3.0);
    let a = &defs[pad_value_index(5, PadParam::Attack)];
    assert_eq!(f64::from_bits(a.min_bits), 0.001);
}
