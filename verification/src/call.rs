//! Argument and result slots for calls across wasm instances.
//!
//! Each argument is a 16-byte slot: byte 0 holds the type tag (0 = u32,
//! 1 = u64, 2 = f32, 3 = f64), bytes 1..8 are reserved and zero, and the
//! value follows from byte 8, little-endian, 4 or 8 bytes wide. A result
//! slot has the same layout. Floating-point values travel as their IEEE-754
//! bit patterns.
use vstd::prelude::*;
use crate::wire::{le_bytes, le_value, pow256, read_le, lemma_le_roundtrip, lemma_le_bytes_len, lemma_pow256_values};

verus! {

pub const SLOT_SIZE: usize = 16;
pub const TAG_U32: u8 = 0;
pub const TAG_U64: u8 = 1;
pub const TAG_F32: u8 = 2;
pub const TAG_F64: u8 = 3;

pub open spec fn zeros(n: nat) -> Seq<u8> {
    Seq::new(n, |i: int| 0u8)
}

/// The slot a value of `width` bytes is written as: the tag, seven zero
/// bytes, the value little-endian, and zeros up to 16 bytes.
pub open spec fn slot_image(tag: u8, v: nat, width: nat) -> Seq<u8> {
    seq![tag] + zeros(7) + le_bytes(v, width) + zeros((8 - width) as nat)
}

/// Writes `n` little-endian bytes of `u` at `at`, leaving the rest alone.
fn put_le(slot: &mut [u8; 16], at: usize, u: u64, n: usize)
    requires
        at + n <= 16,
    ensures
        final(slot)@ == old(slot)@.subrange(0, at as int) + le_bytes(u as nat, n as nat)
            + old(slot)@.subrange(at + n, 16),
    decreases n,
{
    if n > 0 {
        slot[at] = (u % 256) as u8;
        put_le(slot, at + 1, u / 256, n - 1);
        assert(slot@ =~= old(slot)@.subrange(0, at as int) + le_bytes(u as nat, n as nat)
            + old(slot)@.subrange(at + n, 16));
    } else {
        assert(slot@ =~= old(slot)@.subrange(0, at as int) + le_bytes(u as nat, n as nat)
            + old(slot)@.subrange(at + n, 16));
    }
}

fn write_slot(slot: &mut [u8; 16], tag: u8, v: u64, width: usize)
    requires
        width == 4 || width == 8,
    ensures
        final(slot)@ == slot_image(tag, v as nat, width as nat),
{
    *slot = [0u8; 16];
    slot[0] = tag;
    assert(slot@.subrange(8 + width as int, 16) =~= zeros((8 - width) as nat));
    put_le(slot, 8, v, width);
    assert(slot@ =~= slot_image(tag, v as nat, width as nat));
}

/// Writes a `u32` argument; every byte of the slot is overwritten.
pub fn write_arg_u32(slot: &mut [u8; 16], v: u32)
    ensures
        final(slot)@ == slot_image(TAG_U32, v as nat, 4),
{
    write_slot(slot, TAG_U32, v as u64, 4);
}

/// Writes a `u64` argument; every byte of the slot is overwritten.
pub fn write_arg_u64(slot: &mut [u8; 16], v: u64)
    ensures
        final(slot)@ == slot_image(TAG_U64, v as nat, 8),
{
    write_slot(slot, TAG_U64, v, 8);
}

/// Writes an `f32` argument given as its bit pattern.
pub fn write_arg_f32_bits(slot: &mut [u8; 16], bits: u32)
    ensures
        final(slot)@ == slot_image(TAG_F32, bits as nat, 4),
{
    write_slot(slot, TAG_F32, bits as u64, 4);
}

/// Writes an `f64` argument given as its bit pattern.
pub fn write_arg_f64_bits(slot: &mut [u8; 16], bits: u64)
    ensures
        final(slot)@ == slot_image(TAG_F64, bits as nat, 8),
{
    write_slot(slot, TAG_F64, bits, 8);
}

/// Reads a `u32` result.
pub fn read_result_u32(slot: &[u8; 16]) -> (r: u32)
    requires
        slot@[0] == TAG_U32,
    ensures
        r as nat == le_value(slot@.subrange(8, 12)),
{
    proof {
        crate::wire::lemma_le_value_bound(slot@.subrange(8, 12));
        lemma_pow256_values();
    }
    read_le(slot.as_slice(), 8, 4) as u32
}

/// Reads a `u64` result.
pub fn read_result_u64(slot: &[u8; 16]) -> (r: u64)
    requires
        slot@[0] == TAG_U64,
    ensures
        r as nat == le_value(slot@.subrange(8, 16)),
{
    read_le(slot.as_slice(), 8, 8)
}

/// Reads an `f32` result as its bit pattern.
pub fn read_result_f32_bits(slot: &[u8; 16]) -> (r: u32)
    requires
        slot@[0] == TAG_F32,
    ensures
        r as nat == le_value(slot@.subrange(8, 12)),
{
    proof {
        crate::wire::lemma_le_value_bound(slot@.subrange(8, 12));
        lemma_pow256_values();
    }
    read_le(slot.as_slice(), 8, 4) as u32
}

/// Reads an `f64` result as its bit pattern.
pub fn read_result_f64_bits(slot: &[u8; 16]) -> (r: u64)
    requires
        slot@[0] == TAG_F64,
    ensures
        r as nat == le_value(slot@.subrange(8, 16)),
{
    read_le(slot.as_slice(), 8, 8)
}

/// A slot written with a value reads back that value under the same tag,
/// whatever the slot held before.
pub proof fn law_slot_round_trip(tag: u8, v: nat, width: nat)
    requires
        width == 4 || width == 8,
        v < pow256(width),
    ensures
        slot_image(tag, v, width).len() == 16,
        slot_image(tag, v, width)[0] == tag,
        le_value(slot_image(tag, v, width).subrange(8, 8 + width as int)) == v,
        forall|i: int| 1 <= i < 8 ==> slot_image(tag, v, width)[i] == 0,
        forall|i: int| 8 + width <= i < 16 ==> slot_image(tag, v, width)[i] == 0,
{
    lemma_le_bytes_len(v, width);
    lemma_le_roundtrip(v, width);
    let s = slot_image(tag, v, width);
    assert(s.subrange(8, 8 + width as int) =~= le_bytes(v, width));
}

} // verus!
