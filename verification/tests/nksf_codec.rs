use plinken_wclap::msgpack;
use plinken_wclap::msgpack::Value;
use plinken_wclap::nksf::{decode_nisi, encode, parse, NksMeta, Parsed, Plid, RemoteControl};

fn sample() -> Parsed {
    Parsed {
        meta: NksMeta {
            name: "Synome Circuit".into(),
            author: "PLINKEN".into(),
            vendor: "PLINKEN".into(),
            comment: "Gritty mono bass".into(),
            device_type: "INST".into(),
            bankchain: vec!["Synome".into(), "Bass".into(), String::new()],
            types: vec![vec!["Synth".into(), "Bass".into()]],
            modes: vec!["Mono".into()],
            uuid: "abc-123".into(),
        },
        plugin_id: Plid {
            clap_id: Some("com.plinken.synome".into()),
            vst3_uid: Some([1398362959, -12345, 0, 777]),
            vst_magic: Some(-559038737),
        },
        remote_controls: vec![vec![
            RemoteControl { id: "1".into(), name: "Cutoff".into(), section: "Filter".into(), autoname: false, vflag: true },
            RemoteControl { id: "2".into(), name: "Reso".into(), section: "Filter".into(), autoname: false, vflag: true },
            RemoteControl { id: String::new(), name: String::new(), section: String::new(), autoname: true, vflag: false },
        ]],
        pchk: vec![0x50, 0x4c, 0x53, 0x54, 1, 2, 3, 4, 5],
    }
}

/// The chunk ids of a RIFF form body, in order.
fn chunk_ids(mut data: &[u8]) -> Vec<[u8; 4]> {
    let mut ids = Vec::new();
    while data.len() >= 8 {
        let id = [data[0], data[1], data[2], data[3]];
        let size = u32::from_le_bytes([data[4], data[5], data[6], data[7]]) as usize;
        assert!(8 + size <= data.len(), "chunk past the end");
        ids.push(id);
        let adv = 8 + size + size % 2;
        if adv > data.len() {
            break;
        }
        data = &data[adv..];
    }
    ids
}

#[test]
fn round_trips() {
    let p = sample();
    let bytes = encode(&p).unwrap();
    let back = parse(&bytes).unwrap();
    assert_eq!(p, back);
}

#[test]
fn container_is_well_formed() {
    let bytes = encode(&sample()).unwrap();
    assert_eq!(&bytes[0..4], b"RIFF");
    assert_eq!(&bytes[8..12], b"NIKS");
    let declared = u32::from_le_bytes([bytes[4], bytes[5], bytes[6], bytes[7]]) as usize;
    assert_eq!(declared, bytes.len() - 8);
    let order = chunk_ids(&bytes[12..]);
    assert_eq!(order, [*b"NISI", *b"NICA", *b"PLID", *b"PCHK"]);
}

#[test]
fn pchk_is_preserved_verbatim() {
    let p = sample();
    let back = parse(&encode(&p).unwrap()).unwrap();
    assert_eq!(back.pchk, p.pchk);
}

#[test]
fn odd_length_pchk_pads_and_recovers() {
    let mut p = sample();
    p.pchk = vec![1, 2, 3];
    let back = parse(&encode(&p).unwrap()).unwrap();
    assert_eq!(back.pchk, vec![1, 2, 3]);
}

#[test]
fn rejects_bad_magic() {
    let mut bytes = encode(&sample()).unwrap();
    bytes[1] = b'X';
    assert!(parse(&bytes).is_err());
}

#[test]
fn rejects_truncated_chunk() {
    let mut bytes = encode(&sample()).unwrap();
    bytes.truncate(20);
    assert!(parse(&bytes).is_err());
}

#[test]
fn plid_vst_ids_round_trip() {
    let back = parse(&encode(&sample()).unwrap()).unwrap();
    assert_eq!(back.plugin_id.vst_magic, Some(-559038737));
    assert_eq!(back.plugin_id.vst3_uid, Some([1398362959, -12345, 0, 777]));
}

#[test]
fn nica_pages_round_trip() {
    let back = parse(&encode(&sample()).unwrap()).unwrap();
    assert_eq!(back.remote_controls, sample().remote_controls);
    assert!(back.remote_controls[0][0].vflag);
    assert!(back.remote_controls[0][2].autoname);
}

#[test]
fn empty_nica_round_trips_to_empty() {
    let mut p = sample();
    p.remote_controls = vec![];
    let back = parse(&encode(&p).unwrap()).unwrap();
    assert!(back.remote_controls.is_empty());
}

#[test]
fn msgpack_int_edge_values() {
    for n in [0i64, 1, 127, 128, -1, -32, -33, -128, -129, 32767, -32768, 2_000_000, -2_000_000, i32::MAX as i64, i32::MIN as i64] {
        let bytes = msgpack::encode(&Value::Int(n));
        assert_eq!(msgpack::decode(&bytes).unwrap(), Value::Int(n), "int {n}");
    }
}

#[test]
fn msgpack_bool_round_trips() {
    assert_eq!(msgpack::decode(&msgpack::encode(&Value::Bool(true))).unwrap(), Value::Bool(true));
    assert_eq!(msgpack::decode(&msgpack::encode(&Value::Bool(false))).unwrap(), Value::Bool(false));
}

#[test]
fn ignores_unknown_nisi_keys() {
    let map = Value::Mapping(vec![
        ("name".into(), Value::Str("X".into())),
        ("future".into(), Value::Str("ignored".into())),
        ("modes".into(), Value::Arr(vec![])),
        ("types".into(), Value::Arr(vec![])),
        ("bankchain".into(), Value::Arr(vec![])),
    ]);
    let meta = decode_nisi(&{
        let mut v = 1u32.to_le_bytes().to_vec();
        v.extend_from_slice(&msgpack::encode(&map));
        v
    })
    .unwrap();
    assert_eq!(meta.name, "X");
}

// ---------------------------------------------------------------------------
// Further cases
// ---------------------------------------------------------------------------

#[test]
fn msgpack_int_encodings_are_the_shortest_forms() {
    assert_eq!(msgpack::encode(&Value::Int(5)), vec![0x05]);
    assert_eq!(msgpack::encode(&Value::Int(-1)), vec![0xff]);
    assert_eq!(msgpack::encode(&Value::Int(-33)), vec![0xd0, 0xdf]);
    assert_eq!(msgpack::encode(&Value::Int(300)), vec![0xd1, 0x01, 0x2c]);
    assert_eq!(msgpack::encode(&Value::Int(70000)), vec![0xd2, 0x00, 0x01, 0x11, 0x70]);
    assert_eq!(
        msgpack::encode(&Value::Int(i64::MIN)),
        vec![0xd3, 0x80, 0, 0, 0, 0, 0, 0, 0]
    );
}

#[test]
fn msgpack_strings_and_collections_round_trip() {
    let v = Value::Mapping(vec![
        ("k".into(), Value::Arr(vec![Value::Nil, Value::Str("héllo".into()), Value::Int(-7)])),
        ("long".into(), Value::Str("x".repeat(300))),
    ]);
    assert_eq!(msgpack::decode(&msgpack::encode(&v)).unwrap(), v);
}

#[test]
fn msgpack_decode_errors() {
    assert_eq!(msgpack::decode(&[]).unwrap_err(), "unexpected end of MessagePack");
    assert!(msgpack::decode(&[0xc1]).is_err());
    assert!(msgpack::decode(&[0xa5, b'a']).is_err());
}

#[test]
fn value_kinds() {
    assert_eq!(Value::Nil.kind(), "nil");
    assert_eq!(Value::Bool(true).kind(), "bool");
    assert_eq!(Value::Int(1).kind(), "integer");
    assert_eq!(Value::Str(String::new()).kind(), "string");
    assert_eq!(Value::Arr(vec![]).kind(), "array");
    assert_eq!(Value::Mapping(vec![]).kind(), "map");
}

#[test]
fn parse_error_messages() {
    assert_eq!(parse(b"RIFF").unwrap_err(), "too short to be a RIFF file");
    assert_eq!(parse(b"RIFX\0\0\0\0NIKS").unwrap_err(), "missing RIFF magic");
    assert_eq!(parse(b"RIFF\0\0\0\0WAVE").unwrap_err(), "not an NKSF file (form type != NIKS)");
    assert_eq!(parse(b"RIFF\0\0\0\0NIKS").unwrap_err(), "missing NISI chunk");
}

#[test]
fn missing_optional_chunks_default() {
    let p = sample();
    let mut bytes = encode(&p).unwrap();
    // Keep only the NISI chunk.
    let nisi_len = u32::from_le_bytes([bytes[16], bytes[17], bytes[18], bytes[19]]) as usize;
    let keep = 12 + 8 + nisi_len + nisi_len % 2;
    bytes.truncate(keep);
    let back = parse(&bytes).unwrap();
    assert_eq!(back.meta, p.meta);
    assert_eq!(back.plugin_id, Plid::default());
    assert!(back.remote_controls.is_empty());
    assert!(back.pchk.is_empty());
}

#[test]
fn no_strict_prefix_of_an_encoding_decodes() {
    let v = Value::Mapping(vec![
        ("name".to_string(), Value::Str("kick".to_string())),
        ("tags".to_string(), Value::Arr(vec![Value::Int(300), Value::Bool(true), Value::Nil])),
    ]);
    let e = msgpack::encode(&v);
    assert_eq!(msgpack::decode(&e).unwrap(), v);
    for k in 0..e.len() {
        assert!(msgpack::decode(&e[..k]).is_err(), "prefix of {} bytes decoded", k);
    }
}

#[test]
fn chunks_carry_version_size_and_pad() {
    let mut p = sample();
    p.pchk = vec![9, 8, 7];
    let b = encode(&p).unwrap();
    assert_eq!(b.len() % 2, 0);
    let mut at = 12;
    let mut ids = Vec::new();
    while at + 8 <= b.len() {
        let id = [b[at], b[at + 1], b[at + 2], b[at + 3]];
        let size = u32::from_le_bytes([b[at + 4], b[at + 5], b[at + 6], b[at + 7]]) as usize;
        let body = &b[at + 8..at + 8 + size];
        if &id != b"PCHK" {
            assert_eq!(&body[..4], &[1, 0, 0, 0]);
        } else {
            assert_eq!(body, &[9, 8, 7]);
        }
        if size % 2 == 1 {
            assert_eq!(b[at + 8 + size], 0);
        }
        ids.push(id);
        at += 8 + size + size % 2;
    }
    assert_eq!(at, b.len());
    assert_eq!(ids, vec![*b"NISI", *b"NICA", *b"PLID", *b"PCHK"]);
}
