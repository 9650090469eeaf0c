//! `wclap_plugin`: the per-instance struct the factory returns.
use vstd::prelude::*;

verus! {

pub const DESC: usize = 0;
pub const PLUGIN_DATA: usize = 4;
pub const INIT: usize = 8;
pub const DESTROY: usize = 12;
pub const ACTIVATE: usize = 16;
pub const DEACTIVATE: usize = 20;
pub const START_PROCESSING: usize = 24;
pub const STOP_PROCESSING: usize = 28;
pub const RESET: usize = 32;
pub const PROCESS: usize = 36;
pub const GET_EXTENSION: usize = 40;
pub const ON_MAIN_THREAD: usize = 44;
pub const SIZE: usize = 48;

} // verus!
