//! `clap_audio_port_info`: what the host reads of a port.
use vstd::prelude::*;

verus! {

pub const ID: usize = 0;
pub const NAME: usize = 4;
pub const FLAGS: usize = 260;
pub const CHANNEL_COUNT: usize = 264;
pub const PORT_TYPE: usize = 268;
pub const IN_PLACE_PAIR: usize = 272;
pub const SIZE: usize = 276;

} // verus!
