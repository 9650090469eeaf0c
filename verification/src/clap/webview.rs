//! `clap_plugin_webview`: the plugin's web UI extension.
use vstd::prelude::*;

verus! {

pub const GET_URI: usize = 0;
pub const GET_RESOURCE: usize = 4;
pub const RECEIVE: usize = 8;
pub const SIZE: usize = 12;

} // verus!
