//! `clap_plugin_latency`: the plugin's latency extension.
use vstd::prelude::*;

verus! {

pub const GET: usize = 0;
pub const SIZE: usize = 4;

} // verus!
