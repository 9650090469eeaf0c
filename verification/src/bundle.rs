//! Loading plugin bundles into the wasm engine, and the host's errors.
//!
//! A bundle is a bare wasm module (it starts with `\0asm`); gzip'd tar
//! bundles (`1f 8b`) are recognised and refused; anything else is refused
//! with the first bytes of its header in the message.
use vstd::prelude::*;
use vstd::string::StringExecFns;
use crate::text::{hex2, push_hex2, string_of};

verus! {

/// The host's errors.
#[derive(Debug)]
pub enum Error {
    Bundle(String),
    Compile(String),
    Instantiate(String),
    PluginNotFound { id: String },
    ClapAbi(String),
    WasiDenied(String),
    Io(std::io::Error),
}

/// The text of an error, but for an I/O error's own text.
pub open spec fn error_message(e: &Error) -> Option<Seq<char>> {
    match e {
        Error::Bundle(s) => Some("invalid WCLAP bundle: "@ + s@),
        Error::Compile(s) => Some("wasm compilation failed: "@ + s@),
        Error::Instantiate(s) => Some("wasm instantiation failed: "@ + s@),
        Error::PluginNotFound { id } => Some("CLAP plugin '"@ + id@ + "' not found in bundle"@),
        Error::ClapAbi(s) => Some("CLAP ABI error: "@ + s@),
        Error::WasiDenied(s) => Some("WASI denied: "@ + s@),
        Error::Io(_) => None,
    }
}

/// `std::io::Error`'s `Display` text. What it holds depends on the
/// operating system and is not stated.
#[verifier::external_body]
fn io_error_text(e: &std::io::Error) -> String {
    e.to_string()
}

fn prefixed(prefix: &str, s: &String) -> (r: String)
    ensures
        r@ == prefix@ + s@,
{
    let mut r = string_of(prefix);
    r.append(s.as_str());
    r
}

impl Error {
    /// The error's text; an I/O error shows its own text.
    pub fn message(&self) -> (r: String)
        ensures
            error_message(self) matches Some(m) ==> r@ == m,
    {
        match self {
            Error::Bundle(s) => prefixed("invalid WCLAP bundle: ", s),
            Error::Compile(s) => prefixed("wasm compilation failed: ", s),
            Error::Instantiate(s) => prefixed("wasm instantiation failed: ", s),
            Error::PluginNotFound { id } => {
                let mut r = prefixed("CLAP plugin '", id);
                r.append("' not found in bundle");
                r
            },
            Error::ClapAbi(s) => prefixed("CLAP ABI error: ", s),
            Error::WasiDenied(s) => prefixed("WASI denied: ", s),
            Error::Io(e) => io_error_text(e),
        }
    }

}

// ---------------------------------------------------------------------------
// The engine
// ---------------------------------------------------------------------------

/// How much the engine's code generator optimises.
#[derive(Debug, Clone, Copy, PartialEq, Eq, Structural)]
pub enum CodeOpt {
    Unoptimised,
    Speed,
    SpeedAndSize,
}

/// The engine settings the host chooses: which wasm proposals are on, and
/// how the generated code is optimised.
#[derive(Debug, Clone, Copy, PartialEq, Eq, Structural)]
pub struct EngineSettings {
    pub simd: bool,
    pub relaxed_simd: bool,
    pub bulk_memory: bool,
    pub threads: bool,
    pub opt_level: CodeOpt,
}

/// The settings for hosting audio plugins: SIMD, relaxed SIMD and bulk
/// memory on, threads off, code optimised for speed.
pub open spec fn hosting_settings() -> EngineSettings {
    EngineSettings { simd: true, relaxed_simd: true, bulk_memory: true, threads: false, opt_level: CodeOpt::Speed }
}

/// The settings for hosting audio plugins.
pub fn host_settings() -> (r: EngineSettings)
    ensures
        r == hosting_settings(),
{
    EngineSettings { simd: true, relaxed_simd: true, bulk_memory: true, threads: false, opt_level: CodeOpt::Speed }
}

/// A `wasmtime::Config` from `Config::new` with each setting handed to its
/// setter (`wasm_simd`, `wasm_relaxed_simd`, `wasm_bulk_memory`,
/// `wasm_threads`, `cranelift_opt_level`). A `Config` is opaque: nothing is
/// stated of it; that it carries the settings rests on this body.
#[verifier::external_body]
fn config_from(s: &EngineSettings) -> wasmtime::Config {
    let mut c = wasmtime::Config::new();
    c.wasm_simd(s.simd).wasm_relaxed_simd(s.relaxed_simd).wasm_bulk_memory(s.bulk_memory).wasm_threads(s.threads);
    c.cranelift_opt_level(match s.opt_level {
        CodeOpt::Unoptimised => wasmtime::OptLevel::None,
        CodeOpt::Speed => wasmtime::OptLevel::Speed,
        CodeOpt::SpeedAndSize => wasmtime::OptLevel::SpeedAndSize,
    });
    c
}

/// `wasmtime::Engine::new`, its error given as the error's text. Whether
/// it succeeds depends on the machine, and the text is the engine's.
#[verifier::external_body]
fn engine_new(c: &wasmtime::Config) -> Result<wasmtime::Engine, String> {
    wasmtime::Engine::new(c).map_err(|e| e.to_string())
}

/// A shared engine configured for plugin hosting, with the settings it was
/// built with.
#[derive(Clone)]
pub struct HostEngine {
    inner: wasmtime::Engine,
    settings: EngineSettings,
}

impl HostEngine {
    /// Builds the engine from the hosting settings; a configuration the
    /// engine refuses is reported as a compilation failure. Whether the
    /// engine accepts it is wasmtime's to decide on this machine.
    pub fn new() -> (r: Result<HostEngine, Error>)
        ensures
            r matches Ok(e) ==> e.configured() == hosting_settings(),
            r matches Err(e) ==> e is Compile,
    {
        let settings = host_settings();
        let config = config_from(&settings);
        match engine_new(&config) {
            Ok(inner) => Ok(HostEngine { inner, settings }),
            Err(e) => Err(Error::Compile(e)),
        }
    }

    /// The settings the engine was built with.
    pub closed spec fn configured(&self) -> EngineSettings {
        self.settings
    }

    /// The settings the engine was built with.
    pub fn settings(&self) -> (r: EngineSettings)
        ensures
            r == self.configured(),
    {
        self.settings
    }

    /// The wasmtime engine this host engine holds.
    pub closed spec fn engine(&self) -> wasmtime::Engine {
        self.inner
    }

    /// The underlying engine.
    pub fn inner_ref(&self) -> (r: &wasmtime::Engine)
        ensures
            *r == self.engine(),
    {
        &self.inner
    }
}

// ---------------------------------------------------------------------------
// Bundles
// ---------------------------------------------------------------------------

/// The kind of bundle a header announces.
pub enum BundleKind {
    Wasm,
    TarGz,
    Unknown,
}

pub open spec fn bundle_kind(b: Seq<u8>) -> BundleKind {
    if b.len() >= 4 && b[0] == 0x00 && b[1] == 0x61 && b[2] == 0x73 && b[3] == 0x6d {
        BundleKind::Wasm
    } else if b.len() >= 2 && b[0] == 0x1f && b[1] == 0x8b {
        BundleKind::TarGz
    } else {
        BundleKind::Unknown
    }
}

/// The bytes written as a bracketed list of two-digit hex numbers:
/// `[00, 61, 73]`.
pub open spec fn hex_list(b: Seq<u8>) -> Seq<char>
    decreases b.len(),
{
    if b.len() == 0 {
        "[]"@
    } else {
        "["@ + hex_items(b) + "]"@
    }
}

pub open spec fn hex_items(b: Seq<u8>) -> Seq<char>
    decreases b.len(),
{
    if b.len() <= 1 {
        if b.len() == 1 { hex2(b[0]) } else { Seq::empty() }
    } else {
        hex_items(b.drop_last()) + ", "@ + hex2(b.last())
    }
}

/// The message for a header that is neither wasm nor gzip: up to its first
/// eight bytes, in hex.
pub open spec fn unknown_header_message(b: Seq<u8>) -> Seq<char> {
    "unrecognised header (expected wasm `\\0asm` or gzip 1f 8b), got: "@
        + hex_list(b.take(if b.len() < 8 { b.len() as int } else { 8 }))
}

fn hex_list_string(b: &[u8], n: usize) -> (r: String)
    requires
        n <= b@.len(),
    ensures
        r@ == hex_list(b@.take(n as int)),
{
    proof {
        reveal_strlit("[");
        reveal_strlit("]");
        reveal_strlit("[]");
        reveal_strlit(", ");
    }
    if n == 0 {
        assert(b@.take(0) =~= Seq::<u8>::empty());
        return string_of("[]");
    }
    let mut r = string_of("[");
    push_hex2(&mut r, b[0]);
    let mut i: usize = 1;
    assert(b@.take(1) =~= seq![b@[0]]);
    while i < n
        invariant
            1 <= i <= n,
            n <= b@.len(),
            r@ == "["@ + hex_items(b@.take(i as int)),
        decreases n - i,
    {
        r.append(", ");
        push_hex2(&mut r, b[i]);
        assert(b@.take(i + 1).drop_last() =~= b@.take(i as int));
        assert(r@ =~= "["@ + hex_items(b@.take(i + 1)));
        i += 1;
    }
    r.append("]");
    r
}

/// What a module's import or export is.
#[derive(Debug, Clone, Copy, PartialEq, Eq, Structural)]
pub enum ExternKind {
    Func,
    Global,
    Memory,
    Table,
    Tag,
}

pub open spec fn extern_kind_name(k: ExternKind) -> Seq<char> {
    match k {
        ExternKind::Func => "func"@,
        ExternKind::Global => "global"@,
        ExternKind::Memory => "memory"@,
        ExternKind::Table => "table"@,
        ExternKind::Tag => "tag"@,
    }
}

/// One of the five kind names.
pub open spec fn is_kind_name(s: Seq<char>) -> bool {
    s == "func"@ || s == "global"@ || s == "memory"@ || s == "table"@ || s == "tag"@
}

fn kind_name(k: ExternKind) -> (r: String)
    ensures
        r@ == extern_kind_name(k),
{
    match k {
        ExternKind::Func => string_of("func"),
        ExternKind::Global => string_of("global"),
        ExternKind::Memory => string_of("memory"),
        ExternKind::Table => string_of("table"),
        ExternKind::Tag => string_of("tag"),
    }
}

/// (module, name) pairs by their views.
pub open spec fn pair_views(v: Seq<(String, String)>) -> Seq<(Seq<char>, Seq<char>)> {
    v.map_values(|p: (String, String)| (p.0@, p.1@))
}

/// (name, kind) pairs by their views.
pub open spec fn kind_views(v: Seq<(String, ExternKind)>) -> Seq<(Seq<char>, ExternKind)> {
    v.map_values(|p: (String, ExternKind)| (p.0@, p.1))
}

/// The imports wasmtime lists, as (module, name) in the module's order,
/// for the module it compiles from these bytes. They are read from the
/// module's import section, so they depend on the bytes alone.
pub uninterp spec fn wasm_imports(bytes: Seq<u8>) -> Seq<(Seq<char>, Seq<char>)>;

/// The exports wasmtime lists, as (name, kind) in the module's order, for
/// the module it compiles from these bytes; they depend on the bytes alone.
pub uninterp spec fn wasm_exports(bytes: Seq<u8>) -> Seq<(Seq<char>, ExternKind)>;

/// `wasmtime::Module::from_binary`, then the module's `imports` and
/// `exports`, each import as its module and name, each export as its name
/// and kind. Whether the module compiles is the engine's to decide, and the
/// error is given as its text; on success the lists are the ones the
/// module's bytes declare (named, not described).
#[verifier::external_body]
fn compile(engine: &wasmtime::Engine, bytes: &[u8]) -> (r: Result<(wasmtime::Module, Vec<(String, String)>, Vec<(String, ExternKind)>), String>)
    ensures
        r matches Ok((_, i, e)) ==> pair_views(i@) == wasm_imports(bytes@) && kind_views(e@) == wasm_exports(bytes@),
{
    let m = wasmtime::Module::from_binary(engine, bytes).map_err(|e| e.to_string())?;
    let i = m.imports().map(|x| (x.module().to_string(), x.name().to_string())).collect();
    let e = m.exports().map(|x| (x.name().to_string(), match x.ty() {
        wasmtime::ExternType::Func(_) => ExternKind::Func,
        wasmtime::ExternType::Global(_) => ExternKind::Global,
        wasmtime::ExternType::Memory(_) => ExternKind::Memory,
        wasmtime::ExternType::Table(_) => ExternKind::Table,
        wasmtime::ExternType::Tag(_) => ExternKind::Tag,
    })).collect();
    Ok((m, i, e))
}

/// Exports with their kinds written as `func`, `global`, `memory`,
/// `table` or `tag`, in the same order.
pub fn named_exports(found: &Vec<(String, ExternKind)>) -> (r: Vec<(String, String)>)
    ensures
        r@.len() == found@.len(),
        forall|i: int| 0 <= i < found@.len() ==> (#[trigger] r@[i]).0@ == found@[i].0@
            && r@[i].1@ == extern_kind_name(found@[i].1),
{
    let mut out: Vec<(String, String)> = Vec::new();
    let mut i: usize = 0;
    while i < found.len()
        invariant
            i <= found@.len(),
            out@.len() == i,
            forall|j: int| 0 <= j < i ==> (#[trigger] out@[j]).0@ == found@[j].0@
                && out@[j].1@ == extern_kind_name(found@[j].1),
        decreases found@.len() - i,
    {
        let name = found[i].0.clone();
        let kind = kind_name(found[i].1);
        out.push((name, kind));
        i += 1;
    }
    out
}

/// A loaded bundle: the bytes it was compiled from, its compiled module,
/// and the imports and exports the module declares, as wasmtime lists them
/// when the module is compiled.
pub struct Bundle {
    source: Ghost<Seq<u8>>,
    module: wasmtime::Module,
    imports: Vec<(String, String)>,
    exports: Vec<(String, ExternKind)>,
}

/// Copies a list of string pairs.
fn copy_pairs(v: &Vec<(String, String)>) -> (r: Vec<(String, String)>)
    ensures
        r@.len() == v@.len(),
        forall|i: int| 0 <= i < v@.len() ==> (#[trigger] r@[i]).0@ == v@[i].0@ && r@[i].1@ == v@[i].1@,
{
    let mut out: Vec<(String, String)> = Vec::new();
    let mut i: usize = 0;
    while i < v.len()
        invariant
            i <= v@.len(),
            out@.len() == i,
            forall|j: int| 0 <= j < i ==> (#[trigger] out@[j]).0@ == v@[j].0@ && out@[j].1@ == v@[j].1@,
        decreases v@.len() - i,
    {
        let a = v[i].0.clone();
        let b = v[i].1.clone();
        out.push((a, b));
        i += 1;
    }
    out
}

impl Bundle {
    /// Loads a bundle: a wasm module is compiled from the bytes (a compile
    /// failure is `Compile` with the engine's text), and the bundle holds
    /// the bytes and the imports and exports they declare; a gzip'd tar is
    /// refused; any other header is refused with its first bytes in the
    /// message.
    pub fn load(engine: &HostEngine, bytes: &[u8]) -> (r: Result<Bundle, Error>)
        ensures
            bundle_kind(bytes@) is Wasm ==> (r is Ok || (r matches Err(e) && e is Compile)),
            r matches Ok(b) ==> bundle_kind(bytes@) is Wasm && b.source() == bytes@
                && b.import_list() == wasm_imports(bytes@) && b.export_list() == wasm_exports(bytes@),
            bundle_kind(bytes@) is TarGz ==> (r matches Err(Error::Bundle(m))
                && m@ == ".wclap.tar.gz bundles arrive in M2"@),
            bundle_kind(bytes@) is Unknown ==> (r matches Err(Error::Bundle(m))
                && m@ == unknown_header_message(bytes@)),
    {
        if bytes.len() >= 4 && bytes[0] == 0x00 && bytes[1] == 0x61 && bytes[2] == 0x73 && bytes[3] == 0x6d {
            match compile(&engine.inner, bytes) {
                Ok((module, imports, exports)) => Ok(Bundle { source: Ghost(bytes@), module, imports, exports }),
                Err(e) => Err(Error::Compile(e)),
            }
        } else if bytes.len() >= 2 && bytes[0] == 0x1f && bytes[1] == 0x8b {
            Err(Error::Bundle(string_of(".wclap.tar.gz bundles arrive in M2")))
        } else {
            let n = if bytes.len() < 8 { bytes.len() } else { 8 };
            let mut m = string_of("unrecognised header (expected wasm `\\0asm` or gzip 1f 8b), got: ");
            let list = hex_list_string(bytes, n);
            m.append(list.as_str());
            Err(Error::Bundle(m))
        }
    }

    /// The bytes the module was compiled from.
    pub closed spec fn source(&self) -> Seq<u8> {
        self.source@
    }

    /// The compiled module.
    pub closed spec fn module(&self) -> wasmtime::Module {
        self.module
    }

    /// The imports the module declares, as (module, name), in the module's
    /// order.
    pub closed spec fn import_list(&self) -> Seq<(Seq<char>, Seq<char>)> {
        pair_views(self.imports@)
    }

    /// The exports the module declares, as (name, kind), in the module's
    /// order.
    pub closed spec fn export_list(&self) -> Seq<(Seq<char>, ExternKind)> {
        kind_views(self.exports@)
    }

    /// The compiled module.
    pub fn module_ref(&self) -> (r: &wasmtime::Module)
        ensures
            *r == self.module(),
    {
        &self.module
    }

    /// Every import the module declares, as (module, name).
    pub fn imports(&self) -> (r: Vec<(String, String)>)
        ensures
            r@.len() == self.import_list().len(),
            forall|i: int| 0 <= i < r@.len() ==> ((#[trigger] r@[i]).0@, r@[i].1@) == self.import_list()[i],
    {
        copy_pairs(&self.imports)
    }

    /// Every export the module declares, as (name, kind name).
    pub fn exports(&self) -> (r: Vec<(String, String)>)
        ensures
            r@.len() == self.export_list().len(),
            forall|i: int| 0 <= i < r@.len() ==> (#[trigger] r@[i]).0@ == self.export_list()[i].0
                && r@[i].1@ == extern_kind_name(self.export_list()[i].1),
            forall|i: int| 0 <= i < r@.len() ==> is_kind_name(#[trigger] r@[i].1@),
    {
        let r = named_exports(&self.exports);
        assert forall|i: int| 0 <= i < r@.len() implies is_kind_name(#[trigger] r@[i].1@) by {
            assert(r@[i].1@ == extern_kind_name(self.exports@[i].1));
        }
        r
    }
}

} // verus!
