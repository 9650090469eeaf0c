//! Oscillator synthesis modes.
use vstd::prelude::*;

verus! {

/// How an oscillator synthesises its waveform.
#[derive(Debug, Clone, Copy, PartialEq, Eq, Default)]
pub enum OscMode {
    /// Classic analog: saw/pulse morphing.
    #[default]
    Analog,
    /// Wavetable: scan through wavetable frames.
    Wavetable,
    /// Granular: granular cloud synthesis.
    Granular,
    /// Physical: physical modeling / Karplus-Strong.
    Physical,
}

impl OscMode {
    /// The mode with index `i` (0 analog, 1 wavetable, 2 granular,
    /// 3 physical); any other index selects analog.
    pub fn from_index(i: u8) -> (r: Self)
        ensures
            r == (if i == 1 {
                OscMode::Wavetable
            } else if i == 2 {
                OscMode::Granular
            } else if i == 3 {
                OscMode::Physical
            } else {
                OscMode::Analog
            }),
    {
        match i {
            0 => OscMode::Analog,
            1 => OscMode::Wavetable,
            2 => OscMode::Granular,
            3 => OscMode::Physical,
            _ => OscMode::Analog,
        }
    }
}

} // verus!
