//! `clap_audio_buffer`: one port's channel buffers.
use vstd::prelude::*;

verus! {

pub const DATA32: usize = 0;
pub const DATA64: usize = 4;
pub const CHANNEL_COUNT: usize = 8;
pub const LATENCY: usize = 12;
pub const CONSTANT_MASK: usize = 16;
pub const SIZE: usize = 24;

} // verus!
