use plinken_wclap::plugin_abi::{
    audio_port_info, extension_for, note_port_info, silence, ClapEntry, Extension, PluginDef, ProcessCtx,
    ProcessStatus,
};
use plinken_wclap::plugin_wire::{
    load_state, params_snapshot, save_state, ui_message, ui_uri_into, write_str_into, UiMessage,
};

static FEATURES: [&[u8]; 1] = [b"audio-effect\0"];

fn def(ui: bool) -> PluginDef {
    PluginDef {
        id: b"com.plinken.test\0",
        name: b"Test\0",
        vendor: b"PLINKEN\0",
        url: b"\0",
        version: b"1.0.0\0",
        description: b"\0",
        features: &FEATURES,
        audio_inputs: 1,
        audio_outputs: 1,
        note_inputs: 0,
        ui_path: if ui { Some(b"/ui/index.html\0") } else { None },
    }
}

fn set_message(id: u32, value: f64) -> Vec<u8> {
    let mut b = vec![0xa1, 0x63, b's', b'e', b't', 0x82, 0x1a];
    b.extend_from_slice(&id.to_be_bytes());
    b.push(0xfb);
    b.extend_from_slice(&value.to_be_bytes());
    b
}

#[test]
fn ui_messages() {
    assert_eq!(ui_message(&[0x65, b'r', b'e', b'a', b'd', b'y']), UiMessage::Ready);
    assert_eq!(
        ui_message(&set_message(7, 0.25)),
        UiMessage::SetParam { id: 7, value_bits: 0.25f64.to_bits() }
    );
    let mut bad = set_message(7, 0.25);
    bad[11] = 0xfa;
    assert_eq!(ui_message(&bad), UiMessage::Ignored);
    assert_eq!(ui_message(&set_message(7, 0.25)[..19]), UiMessage::Ignored);
    assert_eq!(ui_message(b"ready"), UiMessage::Ignored);
}

#[test]
fn params_snapshot_shapes() {
    assert!(params_snapshot(&vec![]).is_none());
    let one = params_snapshot(&vec![(3, 1.0f64.to_bits())]).unwrap();
    let mut want = vec![0xa1, 0x66];
    want.extend_from_slice(b"params");
    want.push(0xa1);
    want.push(0x1a);
    want.extend_from_slice(&3u32.to_be_bytes());
    want.push(0xfb);
    want.extend_from_slice(&1.0f64.to_be_bytes());
    assert_eq!(one, want);
    let many: Vec<(u32, u64)> = (0..24).map(|i| (i, 0)).collect();
    let doc = params_snapshot(&many).unwrap();
    assert_eq!(&doc[8..10], &[0xb8, 24]);
    let too_many: Vec<(u32, u64)> = (0..256).map(|i| (i, 0)).collect();
    assert!(params_snapshot(&too_many).is_none());
}

#[test]
fn state_round_trip() {
    let pairs = vec![(0u32, 0.7f64.to_bits()), (22, 20000.0f64.to_bits()), (999, (-1.0f64).to_bits())];
    let blob = save_state(&pairs);
    assert_eq!(&blob[0..4], b"TSLP");
    assert_eq!(blob.len(), 12 + 12 * 3);
    let (loaded, ok) = load_state(&blob);
    assert!(ok);
    assert_eq!(loaded, pairs);
}

#[test]
fn state_load_failures() {
    let blob = save_state(&vec![(1, 2), (3, 4)]);
    let (applied, ok) = load_state(&blob[..20]);
    assert!(!ok);
    assert!(applied.is_empty());
    let (applied, ok) = load_state(&blob[..blob.len() - 1]);
    assert!(!ok);
    assert_eq!(applied, vec![(1, 2)]);
    let mut bad = blob.clone();
    bad[4] = 2;
    assert_eq!(load_state(&bad), (vec![], false));
    assert_eq!(load_state(&[1, 2, 3]), (vec![], false));
}

#[test]
fn string_fields_are_clamped_and_terminated() {
    assert_eq!(write_str_into(256, b"Cutoff\0"), b"Cutoff\0".to_vec());
    assert_eq!(write_str_into(4, b"Cutoff\0"), b"Cut\0".to_vec());
    assert_eq!(write_str_into(0, b"Cutoff"), vec![0]);
    assert_eq!(write_str_into(10, b"ab\0cd"), b"ab\0".to_vec());
}

#[test]
fn ui_uri_probe_and_write() {
    let (n, bytes) = ui_uri_into(b"/plugin/abc", b"/ui/index.html", 0);
    assert_eq!(n as usize, "file:/plugin/abc/ui/index.html".len());
    assert!(bytes.is_empty());
    let (_, bytes) = ui_uri_into(b"/plugin/abc", b"/ui/index.html", 64);
    assert_eq!(bytes, b"file:/plugin/abc/ui/index.html\0".to_vec());
    let (_, bytes) = ui_uri_into(b"/plugin/abc", b"/ui/index.html", 8);
    assert_eq!(bytes, b"file:/p\0".to_vec());
}

#[test]
fn extensions_offered() {
    assert_eq!(extension_for(b"clap.audio-ports\0", false, false), Some(Extension::AudioPorts));
    assert_eq!(extension_for(b"clap.note-ports\0", false, false), Some(Extension::NotePorts));
    assert_eq!(extension_for(b"clap.webview/3\0", false, false), None);
    assert_eq!(extension_for(b"clap.webview/3\0", true, false), Some(Extension::Webview));
    assert_eq!(extension_for(b"clap.params\0", false, true), Some(Extension::Params));
    assert_eq!(extension_for(b"clap.params\0", false, false), None);
    assert_eq!(extension_for(b"clap.state\0", false, true), Some(Extension::State));
    assert_eq!(extension_for(b"clap.latency\0", false, false), Some(Extension::Latency));
    assert_eq!(extension_for(b"clap.latency", false, false), None);
    assert_eq!(extension_for(b"clap.latencyX\0", false, false), None);
}

#[test]
fn port_infos() {
    let d = def(true);
    let info = audio_port_info(&d, 0, 1).unwrap();
    assert_eq!(info.len(), 276);
    assert_eq!(&info[0..4], &0u32.to_le_bytes());
    assert_eq!(&info[4..10], b"Input\0");
    assert_eq!(&info[260..264], &1u32.to_le_bytes());
    assert_eq!(&info[264..268], &2u32.to_le_bytes());
    assert_eq!(&audio_port_info(&d, 0, 0).unwrap()[4..11], b"Output\0");
    assert!(audio_port_info(&d, 1, 1).is_none());
    assert!(note_port_info(&d, 0, 1).is_none());
    let mut inst = def(false);
    inst.note_inputs = 1;
    let n = note_port_info(&inst, 0, 1).unwrap();
    assert_eq!(n.len(), 268);
    assert_eq!(&n[4..12], &[3, 0, 0, 0, 1, 0, 0, 0]);
    assert_eq!(&n[12..18], b"Notes\0");
    assert_eq!(d.ui_path_len(), 14);
}

#[test]
fn silence_zeroes_outputs_only() {
    let one = 1.0f32.to_bits();
    let mut ctx = ProcessCtx::new(
        2,
        vec![vec![vec![one, one]]],
        vec![vec![vec![one, one, one], vec![one]], vec![], vec![vec![one]]],
    );
    silence(&mut ctx);
    assert_eq!(ctx.output(0, 0).unwrap(), &vec![0, 0, one]);
    assert_eq!(ctx.output(0, 1).unwrap(), &vec![0]);
    // The walk stops at the first port without channels.
    assert_eq!(ctx.output(2, 0).unwrap(), &vec![one]);
    assert_eq!(ctx.input(0, 0).unwrap(), &vec![one, one]);
    assert_eq!(ctx.frames(), 2);
    assert_eq!(ctx.output_channel_count(), 2);
    assert_eq!(ctx.input_channel_count(), 1);
}

#[test]
fn status_codes_and_entry_image() {
    assert_eq!(ProcessStatus::Continue.code(), 1);
    assert_eq!(ProcessStatus::ContinueIfNotQuiet.code(), 2);
    assert_eq!(ProcessStatus::Sleep.code(), 3);
    assert_eq!(ProcessStatus::Tail.code(), 4);
    let e = ClapEntry::new(5, 6, 7);
    assert_eq!(
        e.image(),
        vec![1, 0, 0, 0, 2, 0, 0, 0, 2, 0, 0, 0, 5, 0, 0, 0, 6, 0, 0, 0, 7, 0, 0, 0]
    );
}
