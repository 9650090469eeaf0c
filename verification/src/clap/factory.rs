//! `wclap_plugin_factory`: what the entry returns for the plugin-factory id.
use vstd::prelude::*;

verus! {

pub const GET_PLUGIN_COUNT: usize = 0;
pub const GET_PLUGIN_DESCRIPTOR: usize = 4;
pub const CREATE_PLUGIN: usize = 8;
pub const SIZE: usize = 12;

} // verus!
