use plinken_wclap::bundle::{host_settings, Bundle, CodeOpt, Error, HostEngine};

#[test]
fn gzip_bundles_are_refused() {
    let engine = HostEngine::new().unwrap();
    match Bundle::load(&engine, &[0x1f, 0x8b, 0, 0]) {
        Err(Error::Bundle(m)) => assert_eq!(m, ".wclap.tar.gz bundles arrive in M2"),
        _ => panic!("expected a bundle error"),
    }
}

#[test]
fn unknown_headers_are_refused_with_their_bytes() {
    let engine = HostEngine::new().unwrap();
    match Bundle::load(&engine, b"hello, world") {
        Err(Error::Bundle(m)) => assert_eq!(
            m,
            "unrecognised header (expected wasm `\\0asm` or gzip 1f 8b), got: [68, 65, 6c, 6c, 6f, 2c, 20, 77]"
        ),
        _ => panic!("expected a bundle error"),
    }
    match Bundle::load(&engine, &[]) {
        Err(Error::Bundle(m)) => assert!(m.ends_with("got: []")),
        _ => panic!("expected a bundle error"),
    }
}

#[test]
fn a_minimal_module_loads_and_a_broken_one_fails_to_compile() {
    let engine = HostEngine::new().unwrap();
    assert!(Bundle::load(&engine, b"\0asm\x01\0\0\0").is_ok());
    match Bundle::load(&engine, b"\0asm\x02\0\0\0") {
        Err(Error::Compile(_)) => {}
        _ => panic!("expected a compile error"),
    }
}

#[test]
fn error_messages() {
    assert_eq!(Error::Bundle("x".into()).message(), "invalid WCLAP bundle: x");
    assert_eq!(Error::Compile("y".into()).message(), "wasm compilation failed: y");
    assert_eq!(Error::Instantiate("z".into()).message(), "wasm instantiation failed: z");
    assert_eq!(
        Error::PluginNotFound { id: "a.b".into() }.message(),
        "CLAP plugin 'a.b' not found in bundle"
    );
    assert_eq!(Error::ClapAbi("w".into()).message(), "CLAP ABI error: w");
    assert_eq!(Error::WasiDenied("v".into()).message(), "WASI denied: v");
    let io = std::io::Error::new(std::io::ErrorKind::Other, "disk gone");
    assert_eq!(Error::Io(io).message(), "disk gone");
}

#[test]
fn a_module_lists_its_imports_and_exports() {
    let engine = HostEngine::new().unwrap();
    let wasm: &[u8] = &[
        0x00, 0x61, 0x73, 0x6d, 0x01, 0x00, 0x00, 0x00, // header
        0x01, 0x04, 0x01, 0x60, 0x00, 0x00, // one type: () -> ()
        0x02, 0x09, 0x01, 0x03, b'e', b'n', b'v', 0x01, b'g', 0x00, 0x00, // import env.g
        0x03, 0x02, 0x01, 0x00, // one function of type 0
        0x07, 0x05, 0x01, 0x01, b'f', 0x00, 0x01, // export "f" = function 1
        0x0a, 0x04, 0x01, 0x02, 0x00, 0x0b, // its body
    ];
    let bundle = match Bundle::load(&engine, wasm) {
        Ok(b) => b,
        Err(e) => panic!("module should load: {}", e.message()),
    };
    assert_eq!(bundle.imports(), vec![("env".to_string(), "g".to_string())]);
    assert_eq!(bundle.exports(), vec![("f".to_string(), "func".to_string())]);
    assert_eq!(bundle.module_ref().exports().count(), 1);
    let _ = engine.inner_ref().clone();
}

#[test]
fn the_engine_is_built_with_the_hosting_settings() {
    let s = host_settings();
    assert!(s.simd && s.relaxed_simd && s.bulk_memory && !s.threads);
    assert_eq!(s.opt_level, CodeOpt::Speed);
    let engine = HostEngine::new().unwrap();
    assert_eq!(engine.settings(), s);
}
