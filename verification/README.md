# plinken_wclap

A verified library for a WebCLAP (CLAP compiled to wasm32) host and its
plugins, with the thin Rust around it that cannot be verified.

- `src/` is verified with Verus. Every public function states what it
  returns or changes; the properties that span several functions stand as
  public proof functions whose names start with `law_`.
  - `wire`, `text`: fixed-width integers as bytes; message texts.
  - `msgpack`, `nksf`, `nksf_laws`: the NKSF preset container and its
    MessagePack chunks, with encode/parse round trips.
  - `call`, `clap`, `host_images`: argument slots of cross-instance calls,
    CLAP struct offsets, and the structs the host writes into a plugin.
  - `handles`, `host_pools`, `host_streams`: the host's handle pools, its
    per-module bookkeeping, and the state streams and event list it serves.
  - `cbor`: the CBOR documents the host publishes to the page.
  - `bundle`, `outside`: loading bundles into wasmtime behind trusted
    wrappers, and the host's error type.
  - `plugin_abi`, `plugin_wire`: the plugin side: extensions, port infos,
    the audio block, UI messages, the parameter snapshot and saved state.
  - `pads`, `synth_params`, `osc`, `voices`, `assembler`: the drum-pad and
    synth parameter tables, voice allocation, and chunked sample transfer.
- `tests/` runs the library on concrete values.
- `app/` holds what Verus cannot take: the float DSP and sample playback,
  the error type with its `Display`, the functions the page calls, and the
  callbacks plugins call, which reach other wasm instances through raw
  imports.
