//! `clap_plugin_params`: the plugin's parameters extension.
use vstd::prelude::*;

verus! {

pub const COUNT: usize = 0;
pub const GET_INFO: usize = 4;
pub const GET_VALUE: usize = 8;
pub const VALUE_TO_TEXT: usize = 12;
pub const TEXT_TO_VALUE: usize = 16;
pub const FLUSH: usize = 20;
pub const SIZE: usize = 24;

} // verus!
