//! `wclap_plugin_entry`: what the plugin module hands back on init.
use vstd::prelude::*;

verus! {

pub const VERSION: usize = 0;
pub const INIT: usize = 12;
pub const DEINIT: usize = 16;
pub const GET_FACTORY: usize = 20;
pub const SIZE: usize = 24;

} // verus!
