//! `wclap_host`: the host struct built in plugin memory and passed to
//! `create_plugin`; its function fields are table indices of host stubs.
use vstd::prelude::*;

verus! {

pub const VERSION: usize = 0;
pub const HOST_DATA: usize = 12;
pub const NAME: usize = 16;
pub const VENDOR: usize = 20;
pub const URL: usize = 24;
pub const VERSION_STR: usize = 28;
pub const GET_EXTENSION: usize = 32;
pub const REQUEST_RESTART: usize = 36;
pub const REQUEST_PROCESS: usize = 40;
pub const REQUEST_CALLBACK: usize = 44;
pub const SIZE: usize = 48;

} // verus!
