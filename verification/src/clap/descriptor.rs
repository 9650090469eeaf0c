//! `wclap_plugin_descriptor`: what the factory hands out per plugin index.
use vstd::prelude::*;

verus! {

pub const VERSION: usize = 0;
pub const ID: usize = 12;
pub const NAME: usize = 16;
pub const VENDOR: usize = 20;
pub const URL: usize = 24;
pub const MANUAL_URL: usize = 28;
pub const SUPPORT_URL: usize = 32;
pub const VERSION_STR: usize = 36;
pub const DESCRIPTION: usize = 40;
pub const FEATURES: usize = 44;
pub const SIZE: usize = 48;

} // verus!
