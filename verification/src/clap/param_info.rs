//! `clap_param_info`: what the host reads of a parameter.
use vstd::prelude::*;

verus! {

pub const ID: usize = 0;
pub const FLAGS: usize = 4;
pub const COOKIE: usize = 8;
pub const NAME: usize = 12;
pub const NAME_LEN: usize = 256;
pub const MODULE: usize = 268;
pub const MODULE_LEN: usize = 1024;
pub const MIN_VALUE: usize = 1296;
pub const MAX_VALUE: usize = 1304;
pub const DEFAULT_VALUE: usize = 1312;
pub const SIZE: usize = 1320;

} // verus!
