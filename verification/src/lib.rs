pub mod wire;
pub mod text;
pub mod msgpack;
pub mod nksf;
pub mod nksf_laws;
pub mod call;
pub mod clap;
pub mod pads;
pub mod synth_params;
pub mod osc;
pub mod voices;
pub mod assembler;
pub mod outside;
pub mod bundle;
pub mod handles;
pub mod host_pools;
pub mod cbor;
pub mod plugin_wire;
pub mod plugin_abi;
pub mod host_streams;
pub mod host_images;
