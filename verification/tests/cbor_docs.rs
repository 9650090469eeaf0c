use plinken_wclap::cbor::{
    cbor_array_header, cbor_f64_bits, cbor_map_header, cbor_port_list, cbor_text, cbor_uint_header, param_entry,
    plugin_info_reply, plugins_info, start_reply,
};
use plinken_wclap::plugin_abi::{param_info, ParamDef};

#[test]
fn cbor_text_short() {
    let mut out = Vec::new();
    cbor_text(&mut out, b"id");
    assert_eq!(out, [0x62, b'i', b'd']);
}

#[test]
fn cbor_map_one_entry() {
    let mut out = Vec::new();
    cbor_map_header(&mut out, 1);
    cbor_text(&mut out, b"plugins");
    cbor_array_header(&mut out, 0);
    let mut want = vec![0xa1, 0x67];
    want.extend_from_slice(b"plugins");
    want.push(0x80);
    assert_eq!(out, want);
}

#[test]
fn cbor_length_24_uses_one_byte_count() {
    let mut out = Vec::new();
    cbor_text(&mut out, &[b'a'; 24]);
    assert_eq!(out[0], 0x60 | 24);
    assert_eq!(out[1], 24);
    assert_eq!(out.len(), 26);
}

#[test]
fn cbor_heads_of_every_width() {
    let mut out = Vec::new();
    cbor_uint_header(&mut out, 0x00, 23);
    cbor_uint_header(&mut out, 0x00, 255);
    cbor_uint_header(&mut out, 0x00, 256);
    cbor_uint_header(&mut out, 0x00, 0x1_0000);
    cbor_uint_header(&mut out, 0x80, 3);
    assert_eq!(
        out,
        vec![0x17, 0x18, 0xff, 0x19, 0x01, 0x00, 0x1a, 0x00, 0x01, 0x00, 0x00, 0x83]
    );
}

#[test]
fn cbor_float_is_big_endian_bits() {
    let mut out = Vec::new();
    cbor_f64_bits(&mut out, 1.5f64.to_bits());
    let mut want = vec![0xfb];
    want.extend_from_slice(&1.5f64.to_be_bytes());
    assert_eq!(out, want);
}

#[test]
fn plugin_list_document() {
    let doc = plugins_info(&vec![b"a.b".to_vec()]);
    let mut want = vec![0xa1, 0x67];
    want.extend_from_slice(b"plugins");
    want.extend_from_slice(&[0x81, 0xa1, 0x62, b'i', b'd', 0x63, b'a', b'.', b'b']);
    assert_eq!(doc, want);
    assert_eq!(
        plugins_info(&vec![]),
        vec![0xa1, 0x67, b'p', b'l', b'u', b'g', b'i', b'n', b's', 0x80]
    );
}

#[test]
fn channel_pointer_documents() {
    let mut out = Vec::new();
    cbor_port_list(&mut out, &vec![vec![16, 0x1_0000]]);
    assert_eq!(out, vec![0x81, 0x82, 0x10, 0x1a, 0x00, 0x01, 0x00, 0x00]);
    let doc = start_reply(&vec![], &vec![vec![1, 2]]);
    let mut want = vec![0xa2, 0x66];
    want.extend_from_slice(b"inputs");
    want.push(0x80);
    want.push(0x67);
    want.extend_from_slice(b"outputs");
    want.extend_from_slice(&[0x81, 0x82, 0x01, 0x02]);
    assert_eq!(doc, want);
}

#[test]
fn param_description_reads_back_the_declared_parameter() {
    let def = ParamDef {
        id: 0x105,
        flags: 33,
        name: b"Pad A01 Decay\0".to_vec(),
        module: b"Pads/A01\0".to_vec(),
        min_bits: 0.01f64.to_bits(),
        max_bits: 8.0f64.to_bits(),
        default_bits: 4.0f64.to_bits(),
    };
    let info = param_info(&def);
    assert_eq!(info.len(), 1320);
    assert_eq!(&info[268..277], b"Pads/A01\0");
    let doc = param_entry(&info);
    let mut want = vec![0xa6, 0x62, b'i', b'd', 0x19, 0x01, 0x05, 0x64];
    want.extend_from_slice(b"name");
    want.push(0x6d);
    want.extend_from_slice(b"Pad A01 Decay");
    want.extend_from_slice(&[0x63, b'm', b'i', b'n', 0xfb]);
    want.extend_from_slice(&0.01f64.to_be_bytes());
    want.extend_from_slice(&[0x63, b'm', b'a', b'x', 0xfb]);
    want.extend_from_slice(&8.0f64.to_be_bytes());
    want.push(0x67);
    want.extend_from_slice(b"default");
    want.push(0xfb);
    want.extend_from_slice(&4.0f64.to_be_bytes());
    want.push(0x65);
    want.extend_from_slice(b"flags");
    want.extend_from_slice(&[0x18, 33]);
    assert_eq!(doc, want);
}

#[test]
fn long_parameter_names_are_cut_to_the_field() {
    let mut name = vec![b'x'; 300];
    name.push(0);
    let def = ParamDef { id: 1, flags: 0, name, module: vec![0], min_bits: 0, max_bits: 0, default_bits: 0 };
    let doc = param_entry(&param_info(&def));
    // "name" then a text head for 255 bytes: 0x78 0xff.
    let at = doc.windows(4).position(|w| w == b"name").unwrap() + 4;
    assert_eq!(&doc[at..at + 2], &[0x78, 0xff]);
}

#[test]
fn plugin_info_without_webview_has_null() {
    let doc = plugin_info_reply(b"com.x", b"X", b"V", b"");
    let mut want = vec![0xa2, 0x64];
    want.extend_from_slice(b"desc");
    want.push(0xa3);
    want.push(0x62);
    want.extend_from_slice(b"id");
    want.push(0x65);
    want.extend_from_slice(b"com.x");
    want.push(0x64);
    want.extend_from_slice(b"name");
    want.push(0x61);
    want.extend_from_slice(b"X");
    want.push(0x66);
    want.extend_from_slice(b"vendor");
    want.push(0x61);
    want.extend_from_slice(b"V");
    want.push(0x67);
    want.extend_from_slice(b"webview");
    want.push(0xf6);
    assert_eq!(doc, want);
}

#[test]
fn plugin_info_with_webview_has_text() {
    let doc = plugin_info_reply(b"a", b"b", b"c", b"file:ui.html");
    let tail = &doc[doc.len() - 13..];
    assert_eq!(tail[0], 0x6c);
    assert_eq!(&tail[1..], b"file:ui.html");
}
