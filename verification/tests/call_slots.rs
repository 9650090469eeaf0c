use plinken_wclap::call::{
    read_result_f32_bits, read_result_f64_bits, read_result_u32, read_result_u64, write_arg_f32_bits,
    write_arg_f64_bits, write_arg_u32, write_arg_u64, SLOT_SIZE, TAG_F32, TAG_F64, TAG_U32, TAG_U64,
};
use plinken_wclap::clap;
use plinken_wclap::clap::{descriptor, entry, factory, host, plugin};

#[test]
fn u32_pack_layout() {
    let mut slot = [0u8; SLOT_SIZE];
    write_arg_u32(&mut slot, 0xDEADBEEF);
    assert_eq!(slot[0], TAG_U32);
    assert_eq!(&slot[1..8], &[0; 7], "reserved bytes must be zero");
    assert_eq!(&slot[8..12], &[0xEF, 0xBE, 0xAD, 0xDE]);
    assert_eq!(&slot[12..16], &[0; 4]);
    assert_eq!(read_result_u32(&slot), 0xDEADBEEF);
}

#[test]
fn u64_pack_layout() {
    let mut slot = [0u8; SLOT_SIZE];
    write_arg_u64(&mut slot, 0x0102030405060708);
    assert_eq!(slot[0], TAG_U64);
    assert_eq!(&slot[8..16], &[0x08, 0x07, 0x06, 0x05, 0x04, 0x03, 0x02, 0x01]);
    assert_eq!(read_result_u64(&slot), 0x0102030405060708);
}

#[test]
fn f32_pack_layout() {
    let mut slot = [0u8; SLOT_SIZE];
    write_arg_f32_bits(&mut slot, 1.0f32.to_bits());
    assert_eq!(slot[0], TAG_F32);
    assert_eq!(&slot[8..12], &1.0f32.to_le_bytes());
    assert_eq!(f32::from_bits(read_result_f32_bits(&slot)), 1.0);
}

#[test]
fn f64_pack_layout() {
    let mut slot = [0u8; SLOT_SIZE];
    write_arg_f64_bits(&mut slot, 44100.0f64.to_bits());
    assert_eq!(slot[0], TAG_F64);
    assert_eq!(&slot[8..16], &44100.0f64.to_le_bytes());
    assert_eq!(f64::from_bits(read_result_f64_bits(&slot)), 44100.0);
}

#[test]
fn rewriting_a_slot_clears_prior_bytes() {
    let mut slot = [0xAAu8; SLOT_SIZE];
    write_arg_u32(&mut slot, 0);
    assert_eq!(slot, [0u8; SLOT_SIZE]);
}

#[test]
fn u64_slot_after_u32_slot_keeps_no_stale_bytes() {
    let mut slot = [0u8; SLOT_SIZE];
    write_arg_u64(&mut slot, u64::MAX);
    write_arg_u32(&mut slot, 7);
    assert_eq!(slot, [0, 0, 0, 0, 0, 0, 0, 0, 7, 0, 0, 0, 0, 0, 0, 0]);
}

#[test]
fn struct_sizes_match_field_layout() {
    assert_eq!(entry::SIZE, 24);
    assert_eq!(descriptor::SIZE, 48);
    assert_eq!(plugin::SIZE, 48);
    assert_eq!(factory::SIZE, 12);
    assert_eq!(host::SIZE, 48);
    assert_eq!(clap::VERSION_SIZE, 12);
}

#[test]
fn factory_id_is_nul_terminated() {
    let id = clap::factory_id();
    assert_eq!(id.last(), Some(&0));
    assert_eq!(&id[..id.len() - 1], b"clap.plugin-factory");
}
