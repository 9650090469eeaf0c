use plinken_wclap::host_streams::{event_at, StateStreams};

#[test]
fn saved_state_reads_back_in_chunks() {
    let mut s = StateStreams::new();
    s.begin_save();
    assert_eq!(s.write(b"PLST"), 4);
    assert_eq!(s.write(&[1, 0, 0, 0]), 4);
    assert_eq!(s.write(&[]), 0);
    let saved = s.saved_bytes().clone();
    assert_eq!(saved, b"PLST\x01\0\0\0".to_vec());
    s.begin_load(&saved);
    assert_eq!(s.read(3), b"PLS".to_vec());
    assert_eq!(s.read(100), b"T\x01\0\0\0".to_vec());
    assert!(s.read(10).is_empty());
}

#[test]
fn a_new_save_starts_empty() {
    let mut s = StateStreams::new();
    s.write(&[9, 9]);
    s.begin_save();
    assert!(s.saved_bytes().is_empty());
}

#[test]
fn events_past_the_end_are_null() {
    let ptrs = vec![0x100, 0x200];
    assert_eq!(event_at(&ptrs, 1), 0x200);
    assert_eq!(event_at(&ptrs, 2), 0);
}
