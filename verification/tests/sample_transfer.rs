use plinken_wclap::assembler::{AssembleResult, SampleAssembler, PLSP_MAGIC, PLSP_VERSION};

const CBOR_PREFIX: [u8; 6] = [0xa1, 0x63, b's', b'm', b'p', 0x5a];
const HEADER_LEN: usize = 32;

fn encode_chunk(
    slot: u32,
    sample_rate: u32,
    channels: u32,
    total_frames: u32,
    chunk_start: u32,
    left: &[f32],
    right: Option<&[f32]>,
) -> Vec<u8> {
    let chunk_frames = left.len() as u32;
    let pcm_len = left.len() * 4 + right.map_or(0, |r| r.len() * 4);
    let payload_len = HEADER_LEN + pcm_len;
    let mut out = Vec::with_capacity(10 + payload_len);
    out.extend_from_slice(&CBOR_PREFIX);
    out.extend_from_slice(&(payload_len as u32).to_be_bytes());
    out.extend_from_slice(&PLSP_MAGIC.to_le_bytes());
    out.extend_from_slice(&PLSP_VERSION.to_le_bytes());
    out.extend_from_slice(&slot.to_le_bytes());
    out.extend_from_slice(&sample_rate.to_le_bytes());
    out.extend_from_slice(&channels.to_le_bytes());
    out.extend_from_slice(&total_frames.to_le_bytes());
    out.extend_from_slice(&chunk_start.to_le_bytes());
    out.extend_from_slice(&chunk_frames.to_le_bytes());
    for v in left {
        out.extend_from_slice(&v.to_le_bytes());
    }
    if let Some(r) = right {
        for v in r {
            out.extend_from_slice(&v.to_le_bytes());
        }
    }
    out
}

fn encode_clear(slot: u32) -> Vec<u8> {
    let mut out = Vec::with_capacity(10 + HEADER_LEN);
    out.extend_from_slice(&CBOR_PREFIX);
    out.extend_from_slice(&(HEADER_LEN as u32).to_be_bytes());
    out.extend_from_slice(&PLSP_MAGIC.to_le_bytes());
    out.extend_from_slice(&PLSP_VERSION.to_le_bytes());
    out.extend_from_slice(&slot.to_le_bytes());
    out.extend_from_slice(&0u32.to_le_bytes());
    out.extend_from_slice(&0u32.to_le_bytes());
    out.extend_from_slice(&0u32.to_le_bytes());
    out.extend_from_slice(&0u32.to_le_bytes());
    out.extend_from_slice(&0u32.to_le_bytes());
    out
}

fn bits(v: &[f32]) -> Vec<u32> {
    v.iter().map(|x| x.to_bits()).collect()
}

#[test]
fn round_trip_stereo_in_chunks() {
    let mut assembler = SampleAssembler::new();
    let total = 10u32;
    let left: Vec<f32> = (0..total).map(|i| i as f32).collect();
    let right: Vec<f32> = (0..total).map(|i| -(i as f32)).collect();

    let r1 = assembler.push(&encode_chunk(3, 44100, 2, total, 0, &left[..4], Some(&right[..4])));
    assert!(matches!(r1, AssembleResult::Progress { received_frames: 4, .. }));
    let r2 = assembler.push(&encode_chunk(3, 44100, 2, total, 4, &left[4..], Some(&right[4..])));
    match r2 {
        AssembleResult::Complete { slot, sample } => {
            assert_eq!(slot, 3);
            assert_eq!(sample.sample_rate, 44100);
            assert_eq!(sample.channels, 2);
            assert_eq!(sample.frame_count, 10);
            assert_eq!(sample.left, bits(&left));
            assert_eq!(sample.right, bits(&right));
        }
        other => panic!("expected Complete, got {other:?}"),
    }
}

#[test]
fn mono_single_chunk_and_clear() {
    let mut assembler = SampleAssembler::new();
    let pcm: Vec<f32> = vec![0.5; 8];
    match assembler.push(&encode_chunk(0, 48000, 1, 8, 0, &pcm, None)) {
        AssembleResult::Complete { slot: 0, sample } => {
            assert_eq!(sample.left, bits(&pcm));
            assert!(sample.right.is_empty());
        }
        other => panic!("expected Complete, got {other:?}"),
    }
    assert!(matches!(assembler.push(&encode_clear(0)), AssembleResult::Cleared { slot: 0 }));
}

#[test]
fn restart_mid_transfer_resets_slot() {
    let mut assembler = SampleAssembler::new();
    let l: Vec<f32> = (0..6).map(|i| i as f32).collect();
    assembler.push(&encode_chunk(1, 48000, 1, 6, 0, &l[..3], None));
    assembler.push(&encode_chunk(1, 48000, 1, 6, 0, &l[..3], None));
    match assembler.push(&encode_chunk(1, 48000, 1, 6, 3, &l[3..], None)) {
        AssembleResult::Complete { sample, .. } => assert_eq!(sample.left, bits(&l)),
        other => panic!("expected Complete, got {other:?}"),
    }
}

#[test]
fn out_of_order_chunk_is_an_error() {
    let mut assembler = SampleAssembler::new();
    let l = vec![1.0f32; 4];
    assembler.push(&encode_chunk(2, 48000, 1, 8, 0, &l, None));
    assert!(matches!(
        assembler.push(&encode_chunk(2, 48000, 1, 8, 6, &l[..2], None)),
        AssembleResult::Error
    ));
    assert!(matches!(
        assembler.push(&encode_chunk(2, 48000, 1, 8, 4, &l, None)),
        AssembleResult::Error
    ));
}

#[test]
fn foreign_messages_are_not_mine() {
    let mut assembler = SampleAssembler::new();
    assert!(matches!(assembler.push(b"ready"), AssembleResult::NotMine));
    assert!(matches!(assembler.push(&[0xa1, 0x63, b's', b'e', b't']), AssembleResult::NotMine));
    assert!(matches!(assembler.push(b"{\"json\":true}"), AssembleResult::NotMine));
}

#[test]
fn size_mismatch_is_error() {
    let mut assembler = SampleAssembler::new();
    let mut msg = encode_chunk(1, 48000, 1, 8, 0, &[0.0; 4], None);
    msg.truncate(msg.len() - 4);
    assert!(matches!(assembler.push(&msg), AssembleResult::Error));
}

// ---------------------------------------------------------------------------
// Further cases
// ---------------------------------------------------------------------------

#[test]
fn truncated_own_message_is_an_error() {
    let mut assembler = SampleAssembler::new();
    let msg = encode_chunk(1, 48000, 1, 8, 0, &[0.0; 4], None);
    assert!(matches!(assembler.push(&msg[..20]), AssembleResult::Error));
}

#[test]
fn header_contract_errors() {
    let mut assembler = SampleAssembler::new();
    let one = [0.25f32];
    // slot out of range
    assert!(matches!(assembler.push(&encode_chunk(64, 48000, 1, 1, 0, &one, None)), AssembleResult::Error));
    // three channels
    assert!(matches!(assembler.push(&encode_chunk(1, 48000, 3, 1, 0, &one, None)), AssembleResult::Error));
    // zero sample rate
    assert!(matches!(assembler.push(&encode_chunk(1, 0, 1, 1, 0, &one, None)), AssembleResult::Error));
    // chunk past the end
    assert!(matches!(assembler.push(&encode_chunk(1, 48000, 1, 1, 1, &one, None)), AssembleResult::Error));
    // too many frames
    assert!(matches!(assembler.push(&encode_chunk(1, 48000, 1, (1 << 26) + 1, 0, &one, None)), AssembleResult::Error));
    // bad magic
    let mut msg = encode_chunk(1, 48000, 1, 1, 0, &one, None);
    msg[10] ^= 0xff;
    assert!(matches!(assembler.push(&msg), AssembleResult::Error));
}

#[test]
fn mid_transfer_chunk_without_start_is_an_error() {
    let mut assembler = SampleAssembler::new();
    assert!(matches!(
        assembler.push(&encode_chunk(5, 48000, 1, 8, 4, &[1.0; 4], None)),
        AssembleResult::Error
    ));
}

#[test]
fn slots_are_independent() {
    let mut assembler = SampleAssembler::new();
    let a = [1.0f32, 2.0];
    let b = [3.0f32, 4.0];
    assert!(matches!(assembler.push(&encode_chunk(7, 48000, 1, 4, 0, &a, None)), AssembleResult::Progress { slot: 7, received_frames: 2, total_frames: 4 }));
    assert!(matches!(assembler.push(&encode_chunk(8, 48000, 1, 4, 0, &b, None)), AssembleResult::Progress { slot: 8, .. }));
    assert!(matches!(assembler.push(&encode_clear(8)), AssembleResult::Cleared { slot: 8 }));
    match assembler.push(&encode_chunk(7, 48000, 1, 4, 2, &b, None)) {
        AssembleResult::Complete { slot: 7, sample } => assert_eq!(sample.left, bits(&[1.0, 2.0, 3.0, 4.0])),
        other => panic!("expected Complete, got {other:?}"),
    }
}
