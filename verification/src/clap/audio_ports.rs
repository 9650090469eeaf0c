//! `clap_plugin_audio_ports`: how many ports a side has, and the info of one.
use vstd::prelude::*;

verus! {

pub const COUNT: usize = 0;
pub const GET: usize = 4;
pub const SIZE: usize = 8;

} // verus!
