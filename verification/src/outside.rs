//! The outside types the library holds: the wasm engine's engine, module and
//! configuration, and std's I/O error.
use vstd::prelude::*;

verus! {

#[verifier::external_type_specification]
#[verifier::external_body]
pub struct ExEngine(wasmtime::Engine);

#[verifier::external_type_specification]
#[verifier::external_body]
pub struct ExModule(wasmtime::Module);

#[verifier::external_type_specification]
#[verifier::external_body]
pub struct ExConfig(wasmtime::Config);

#[verifier::external_type_specification]
#[verifier::external_body]
pub struct ExIoError(std::io::Error);

/// `Clone` of the engine: a second handle to the same shared engine.
pub assume_specification[ <wasmtime::Engine as std::clone::Clone>::clone ](e: &wasmtime::Engine) -> wasmtime::Engine;

} // verus!
