use plinken_wclap::host_images::{
    asks_host_webview, audio_buffer_struct, host_struct, input_events_struct, output_events_struct, param_value_event, process_struct,
    stream_struct, webview_struct, words_le,
};
use plinken_wclap::clap;
use plinken_wclap::host_pools::HostStubIndices;

fn words(b: &[u8]) -> Vec<u32> {
    b.chunks(4).map(|c| u32::from_le_bytes([c[0], c[1], c[2], c[3]])).collect()
}

#[test]
fn param_value_event_layout() {
    let ev = param_value_event(7, 0x3ff0_0000_0000_0000);
    assert_eq!(ev.len(), 48);
    assert_eq!(&ev[0..4], &48u32.to_le_bytes());
    assert_eq!(&ev[4..8], &[0, 0, 0, 0]);
    assert_eq!(&ev[8..10], &[0, 0]);
    assert_eq!(&ev[10..12], &5u16.to_le_bytes());
    assert_eq!(&ev[12..16], &1u32.to_le_bytes());
    assert_eq!(&ev[16..20], &7u32.to_le_bytes());
    assert_eq!(&ev[20..24], &[0, 0, 0, 0]);
    assert_eq!(&ev[24..28], &(-1i32).to_le_bytes());
    assert_eq!(&ev[28..30], &(-1i16).to_le_bytes());
    assert_eq!(&ev[30..32], &(-1i16).to_le_bytes());
    assert_eq!(&ev[32..34], &(-1i16).to_le_bytes());
    assert_eq!(&ev[34..40], &[0, 0, 0, 0, 0, 0]);
    assert_eq!(&ev[40..48], &1.0f64.to_le_bytes());
}

#[test]
fn words_are_little_endian() {
    assert_eq!(words_le(&[0x0403_0201, 0xa0b0_c0d0]), vec![1, 2, 3, 4, 0xd0, 0xc0, 0xb0, 0xa0]);
    assert!(words_le(&[]).is_empty());
}

#[test]
fn host_struct_layout() {
    let stubs = HostStubIndices {
        get_extension: 11,
        request_restart: 12,
        request_process: 13,
        request_callback: 14,
        events_in_size: 15,
        events_in_get: 16,
        events_out_try_push: 17,
        host_webview_send: 18,
        state_write: 19,
        state_read: 20,
    };
    let b = host_struct(9, 100, 200, 300, 400, &stubs);
    assert_eq!(b.len(), 48);
    assert_eq!(words(&b), vec![1, 2, 2, 9, 100, 200, 300, 400, 11, 12, 13, 14]);
}

#[test]
fn small_struct_layouts() {
    assert_eq!(words(&stream_struct(3, 44)), vec![3, 44]);
    assert_eq!(words(&webview_struct(5)), vec![5]);
    assert_eq!(words(&audio_buffer_struct(0x800, 2)), vec![0x800, 0, 2, 0, 0, 0]);
    assert_eq!(words(&input_events_struct(3, 7, 8)), vec![3, 7, 8]);
    assert_eq!(words(&output_events_struct(3, 9)), vec![3, 9]);
}

#[test]
fn process_struct_layout() {
    let b = process_struct(0x10, 0x20, 1, 2, 0x30, 0x40);
    assert_eq!(b.len(), 40);
    assert_eq!(&b[0..8], &(-1i64).to_le_bytes());
    assert_eq!(words(&b[8..]), vec![0, 0, 0x10, 0x20, 1, 2, 0x30, 0x40]);
}

#[test]
fn host_offers_only_the_webview() {
    assert!(asks_host_webview(b"clap.webview/3\0"));
    assert!(asks_host_webview(b"clap.webview/3"));
    assert!(!asks_host_webview(b"clap.webview/2\0"));
    assert!(!asks_host_webview(b"clap.params\0"));
    assert!(!asks_host_webview(b"clap.web"));
}

#[test]
fn struct_images_match_the_layout_sizes() {
    assert_eq!(process_struct(0, 0, 0, 0, 0, 0).len(), clap::process::SIZE);
    assert_eq!(audio_buffer_struct(0, 0).len(), clap::audio_buffer::SIZE);
    assert_eq!(words_le(&[0; 2]).len(), clap::state::SIZE);
    assert_eq!(clap::param_info::DEFAULT_VALUE + 8, clap::param_info::SIZE);
    assert_eq!(clap::audio_port_info::CHANNEL_COUNT, 264);
    assert_eq!(clap::process::IN_EVENTS, 32);
}
