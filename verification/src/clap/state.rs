//! `clap_plugin_state`: the plugin's state extension.
use vstd::prelude::*;

verus! {

pub const SAVE: usize = 0;
pub const LOAD: usize = 4;
pub const SIZE: usize = 8;

} // verus!
