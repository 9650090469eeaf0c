//! `clap_process`: one block, as the host hands it to the plugin.
use vstd::prelude::*;

verus! {

pub const STEADY_TIME: usize = 0;
pub const FRAMES_COUNT: usize = 8;
pub const TRANSPORT: usize = 12;
pub const AUDIO_INPUTS: usize = 16;
pub const AUDIO_OUTPUTS: usize = 20;
pub const AUDIO_INPUTS_COUNT: usize = 24;
pub const AUDIO_OUTPUTS_COUNT: usize = 28;
pub const IN_EVENTS: usize = 32;
pub const OUT_EVENTS: usize = 36;
pub const SIZE: usize = 40;

} // verus!
