//! Field offsets and struct sizes of the CLAP structs as a wasm32 plugin
//! lays them out: pointers and function references are 4-byte values.
use vstd::prelude::*;

pub mod entry;
pub mod descriptor;
pub mod plugin;
pub mod factory;
pub mod host;
pub mod audio_ports;
pub mod audio_port_info;
pub mod audio_buffer;
pub mod process;
pub mod webview;
pub mod params;
pub mod param_info;
pub mod latency;
pub mod state;

verus! {

/// `wclap_version`: three little-endian u32s (major, minor, revision).
pub const VERSION_SIZE: usize = 12;

/// The id under which a plugin entry hands out its plugin factory, with
/// its NUL terminator.
pub fn factory_id() -> (r: [u8; 20])
    ensures
        r@ == seq![
            0x63u8, 0x6c, 0x61, 0x70, 0x2e, 0x70, 0x6c, 0x75, 0x67, 0x69, 0x6e, 0x2d,
            0x66, 0x61, 0x63, 0x74, 0x6f, 0x72, 0x79, 0x00,
        ],
{
    [
        0x63u8, 0x6c, 0x61, 0x70, 0x2e, 0x70, 0x6c, 0x75, 0x67, 0x69, 0x6e, 0x2d,
        0x66, 0x61, 0x63, 0x74, 0x6f, 0x72, 0x79, 0x00,
    ]
}

} // verus!
