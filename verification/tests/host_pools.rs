use plinken_wclap::host_pools::{teardown_calls, BytesPool, HostStubIndices, HostedPool, InstancePool, TeardownCall};

#[test]
fn roundtrip() {
    let mut pool = BytesPool::new();
    let a = pool.create();
    let b = pool.create();
    assert_ne!(a, b, "handles must be distinct");
    assert!(a > 0 && b > 0, "handles are 1-based");

    pool.resize(a, 4);
    assert_eq!(pool.length(a), 4);
    pool.set(a, &[0xDE, 0xAD, 0xBE, 0xEF]);
    pool.resize(a, 8);
    assert_eq!(pool.length(a), 8);
    let buf = pool.contents(a);
    assert_eq!(&buf[..4], &[0xDE, 0xAD, 0xBE, 0xEF]);
    assert_eq!(&buf[4..], &[0, 0, 0, 0]);
    assert_eq!(pool.length(b), 0);
}

#[test]
fn make_hosted_returns_distinct_nonzero() {
    let mut pool = HostedPool::new();
    let a = pool.make(0x1000);
    let b = pool.make(0x2000);
    assert_ne!(a, b);
    assert!(a > 0 && b > 0);
    assert_eq!(pool.get(a).unwrap().instance_handle, 0x1000);
    assert_eq!(pool.get(b).unwrap().instance_handle, 0x2000);
    assert!(pool.get(a).unwrap().plugins.is_empty());
    assert!(pool.get(b).unwrap().stubs.is_none());
    assert!(pool.get(b).unwrap().entry_ptr.is_none());
    assert!(pool.get(b).unwrap().factory_ptr.is_none());
}

#[test]
fn create_then_set_path() {
    let mut pool = InstancePool::new();
    let h = pool.create(0);
    assert!(h > 0);
    pool.set_path_len(h, 12);
    assert_eq!(pool.path(h).len(), 12);
    assert!(pool.path(h).iter().all(|&b| b == 0));
}

#[test]
fn is64_rejected() {
    let mut pool = InstancePool::new();
    assert_eq!(pool.create(1), 0);
}

#[test]
fn removed_hosted_module_is_gone_and_handles_not_reused() {
    let mut pool = HostedPool::new();
    let a = pool.make(1);
    pool.remove(a);
    assert!(pool.get(a).is_none());
    let b = pool.make(2);
    assert_ne!(a, b);
}

#[test]
fn shrinking_a_buffer_keeps_its_head() {
    let mut pool = BytesPool::new();
    let a = pool.create();
    pool.set(a, &[1, 2, 3, 4, 5]);
    pool.resize(a, 2);
    assert_eq!(pool.contents(a), &vec![1, 2]);
}

#[test]
fn hosted_bookkeeping_records_plugins_callbacks_and_factory() {
    let mut pool = HostedPool::new();
    let h = pool.make(7);
    pool.add_plugin(h, 3);
    pool.add_plugin(h, 4);
    pool.add_plugin(h, 3);
    pool.drop_plugin(h, 3);
    assert_eq!(pool.get(h).unwrap().plugins, vec![4]);
    pool.drop_plugin(h + 1, 4);
    assert_eq!(pool.get(h).unwrap().plugins, vec![4]);

    let stubs = HostStubIndices {
        get_extension: 1,
        request_restart: 2,
        request_process: 3,
        request_callback: 4,
        events_in_size: 5,
        events_in_get: 6,
        events_out_try_push: 7,
        host_webview_send: 8,
        state_write: 9,
        state_read: 10,
    };
    assert!(pool.get(h).unwrap().stubs.is_none());
    pool.set_stubs(h, stubs);
    assert_eq!(pool.get(h).unwrap().stubs, Some(stubs));
    pool.set_factory(h, 0x100, 0x200);
    assert_eq!(pool.get(h).unwrap().entry_ptr, Some(0x100));
    assert_eq!(pool.get(h).unwrap().factory_ptr, Some(0x200));
    assert_eq!(pool.get(h).unwrap().instance_handle, 7);
}

#[test]
fn teardown_calls_follow_the_plugin_lifecycle() {
    assert!(teardown_calls(0, 0x40).is_empty());
    assert_eq!(teardown_calls(0x10, 0), vec![TeardownCall::Destroy]);
    assert_eq!(
        teardown_calls(0x10, 0x40),
        vec![TeardownCall::StopProcessing, TeardownCall::Deactivate, TeardownCall::Destroy]
    );
}
