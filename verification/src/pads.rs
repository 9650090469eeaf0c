//! Drum-pad model: which MIDI note triggers which pad, and the parameter-id
//! scheme of the pad parameters.
//!
//! Ids: the globals are `0` (master level) and `1` (pad count, hidden); pad
//! `pad` (0..64) owns the ids `0x100 + pad * 0x10 + offset` for its twelve
//! parameters. Values live in a flat array indexed by table position: the
//! two globals first, then twelve entries per pad.
use vstd::prelude::*;
use crate::plugin_abi::{ParamDef, ParamView, PARAM_IS_AUTOMATABLE, PARAM_IS_STEPPED, PARAM_IS_HIDDEN};

verus! {

pub const PADS: usize = 64;
pub const PAD_PARAMS: usize = 12;
pub const PAD_ID_BASE: u32 = 0x0100;
pub const PAD_ID_STRIDE: u32 = 0x10;

/// The parameters of one pad, in id-offset order.
#[derive(Clone, Copy, Debug, PartialEq, Eq)]
pub enum PadParam {
    Level,
    Tune,
    FineTune,
    Pan,
    Attack,
    Decay,
    FilterType,
    Cutoff,
    Resonance,
    MuteGroup,
    OneShot,
    RootKey,
}

pub open spec fn spec_offset(p: PadParam) -> nat {
    match p {
        PadParam::Level => 0,
        PadParam::Tune => 1,
        PadParam::FineTune => 2,
        PadParam::Pan => 3,
        PadParam::Attack => 4,
        PadParam::Decay => 5,
        PadParam::FilterType => 6,
        PadParam::Cutoff => 7,
        PadParam::Resonance => 8,
        PadParam::MuteGroup => 9,
        PadParam::OneShot => 10,
        PadParam::RootKey => 11,
    }
}

impl PadParam {
    /// The parameter's offset within its pad's id block and value block.
    pub fn offset(self) -> (r: usize)
        ensures
            r == spec_offset(self),
            r < PAD_PARAMS,
    {
        match self {
            PadParam::Level => 0,
            PadParam::Tune => 1,
            PadParam::FineTune => 2,
            PadParam::Pan => 3,
            PadParam::Attack => 4,
            PadParam::Decay => 5,
            PadParam::FilterType => 6,
            PadParam::Cutoff => 7,
            PadParam::Resonance => 8,
            PadParam::MuteGroup => 9,
            PadParam::OneShot => 10,
            PadParam::RootKey => 11,
        }
    }
}

/// The id of parameter `off` of pad `pad`.
pub open spec fn param_id(pad: int, off: int) -> int {
    PAD_ID_BASE + pad * PAD_ID_STRIDE + off
}

/// The values-array index of parameter `off` of pad `pad`.
pub open spec fn value_index(pad: int, off: int) -> int {
    2 + pad * PAD_PARAMS + off
}

/// The values-array index of a parameter id: the globals map to
/// themselves; an id in a pad's block maps to that pad's value block;
/// anything else has no index.
pub open spec fn spec_param_index(id: u32) -> Option<int> {
    if id <= 1 {
        Some(id as int)
    } else if id < PAD_ID_BASE {
        None
    } else {
        let rel = id - PAD_ID_BASE;
        let pad = rel / (PAD_ID_STRIDE as int);
        let off = rel % (PAD_ID_STRIDE as int);
        if pad < PADS && off < PAD_PARAMS {
            Some(value_index(pad, off))
        } else {
            None
        }
    }
}

/// Parameter id to values-array index.
pub fn param_index(id: u32) -> (r: Option<usize>)
    ensures
        r matches Some(i) ==> spec_param_index(id) == Some(i as int),
        r is None ==> spec_param_index(id) is None,
{
    if id <= 1 {
        return Some(id as usize);
    }
    if id < PAD_ID_BASE {
        return None;
    }
    let rel = id - PAD_ID_BASE;
    let pad = (rel / PAD_ID_STRIDE) as usize;
    let off = (rel % PAD_ID_STRIDE) as usize;
    if pad < PADS && off < PAD_PARAMS {
        Some(2 + pad * PAD_PARAMS + off)
    } else {
        None
    }
}

/// Values-array index of one pad parameter.
pub fn pad_value_index(pad: usize, p: PadParam) -> (r: usize)
    requires
        value_index(pad as int, spec_offset(p) as int) <= usize::MAX,
    ensures
        r == value_index(pad as int, spec_offset(p) as int),
{
    2 + pad * PAD_PARAMS + p.offset()
}

/// Every pad parameter's id resolves to that parameter's value index, and
/// distinct parameters have distinct ids and distinct indices.
pub proof fn law_param_ids(pad: int, off: int, pad2: int, off2: int)
    requires
        0 <= pad < PADS,
        0 <= off < PAD_PARAMS,
        0 <= pad2 < PADS,
        0 <= off2 < PAD_PARAMS,
    ensures
        0 <= param_id(pad, off) <= u32::MAX,
        spec_param_index(param_id(pad, off) as u32) == Some(value_index(pad, off)),
        (pad, off) != (pad2, off2) ==> param_id(pad, off) != param_id(pad2, off2),
        (pad, off) != (pad2, off2) ==> value_index(pad, off) != value_index(pad2, off2),
        2 <= value_index(pad, off) < 2 + PADS * PAD_PARAMS,
{
    let id = param_id(pad, off) as u32;
    assert(id - PAD_ID_BASE == pad * 16 + off);
    assert((pad * 16 + off) / 16 == pad) by (nonlinear_arith)
        requires
            0 <= off < 16,
            0 <= pad,
    ;
    assert((pad * 16 + off) % 16 == off) by (nonlinear_arith)
        requires
            0 <= off < 16,
            0 <= pad,
    ;
    assert((pad, off) != (pad2, off2) ==> pad * 16 + off != pad2 * 16 + off2) by (nonlinear_arith)
        requires
            0 <= off < 16,
            0 <= off2 < 16,
    ;
    assert((pad, off) != (pad2, off2) ==> pad * 12 + off != pad2 * 12 + off2) by (nonlinear_arith)
        requires
            0 <= off < 12,
            0 <= off2 < 12,
    ;
    assert(pad * 12 + off < 768) by (nonlinear_arith)
        requires
            0 <= off < 12,
            0 <= pad < 64,
    ;
}

// ---------------------------------------------------------------------------
// Trigger notes
// ---------------------------------------------------------------------------

/// Bank A, the classic Akai MPC layout (pads A01..A16, bottom row first).
pub open spec fn bank_a() -> Seq<u8> {
    seq![37u8, 36, 42, 82, 40, 38, 46, 44, 48, 47, 45, 43, 49, 55, 51, 53]
}

/// The trigger note of a pad: bank A as above; banks B to D count up from
/// 50, skipping every note bank A uses (51, 53, 55 and 82), so pad 16 is
/// 50, pads 19..44 are 56..81 and pads 45..63 are 83..101.
pub open spec fn spec_pad_note(pad: int) -> u8 {
    if pad < 16 {
        bank_a()[pad]
    } else if pad == 16 {
        50
    } else if pad == 17 {
        52
    } else if pad == 18 {
        54
    } else if pad <= 44 {
        (pad + 37) as u8
    } else {
        (pad + 38) as u8
    }
}

/// The trigger note of pad `pad`.
pub fn pad_note(pad: usize) -> (r: u8)
    requires
        pad < PADS,
    ensures
        r == spec_pad_note(pad as int),
{
    if pad < 16 {
        let bank: [u8; 16] = [37, 36, 42, 82, 40, 38, 46, 44, 48, 47, 45, 43, 49, 55, 51, 53];
        assert(bank@ =~= bank_a());
        bank[pad]
    } else if pad == 16 {
        50
    } else if pad == 17 {
        52
    } else if pad == 18 {
        54
    } else if pad <= 44 {
        (pad + 37) as u8
    } else {
        (pad + 38) as u8
    }
}

/// The trigger note of every pad, pad 0 first.
pub fn pad_notes() -> (r: Vec<u8>)
    ensures
        r@.len() == PADS,
        forall|p: int| 0 <= p < PADS ==> r@[p] == spec_pad_note(p),
{
    let mut out: Vec<u8> = Vec::new();
    let mut p: usize = 0;
    while p < PADS
        invariant
            p <= PADS,
            out@.len() == p,
            forall|q: int| 0 <= q < p ==> out@[q] == spec_pad_note(q),
        decreases PADS - p,
    {
        out.push(pad_note(p));
        p += 1;
    }
    out
}

/// The pad a note triggers: 0xFF when no pad has the note.
pub fn note_to_pad(key: u8) -> (r: u8)
    ensures
        r == 0xFF ==> forall|p: int| 0 <= p < PADS ==> spec_pad_note(p) != key,
        r != 0xFF ==> r < PADS && spec_pad_note(r as int) == key,
{
    let mut p: usize = 0;
    while p < PADS
        invariant
            p <= PADS,
            forall|q: int| 0 <= q < p ==> spec_pad_note(q) != key,
        decreases PADS - p,
    {
        if pad_note(p) == key {
            return p as u8;
        }
        p += 1;
    }
    0xFF
}

/// The pad a key triggers among the first `pad_count` pads (at most 64).
pub open spec fn spec_pad_for_note(key: int, pad_count: int) -> Option<int> {
    if !(0 <= key <= 127) {
        None
    } else if exists|p: int| 0 <= p < PADS && p < pad_count && spec_pad_note(p) == key {
        Some(choose|p: int| 0 <= p < PADS && p < pad_count && spec_pad_note(p) == key)
    } else {
        None
    }
}

/// The pad index for a MIDI key, honouring the pad count so that notes of
/// pads not yet added stay silent: `None` for a key outside 0..=127, a note
/// no pad has, or a pad at or past `min(pad_count, 64)`.
pub fn pad_for_note(key: i16, pad_count: usize) -> (r: Option<usize>)
    ensures
        r matches Some(p) ==> 0 <= key <= 127 && p < pad_count && p < PADS
            && spec_pad_note(p as int) == key,
        r is None ==> !(0 <= key <= 127) || forall|p: int|
            0 <= p < PADS && p < pad_count ==> spec_pad_note(p) != key,
        r matches Some(p) ==> spec_pad_for_note(key as int, pad_count as int) == Some(p as int),
        r is None ==> spec_pad_for_note(key as int, pad_count as int) is None,
{
    if key < 0 || key > 127 {
        return None;
    }
    let pad = note_to_pad(key as u8);
    let limit = if pad_count < PADS { pad_count } else { PADS };
    if pad == 0xFF || pad as usize >= limit {
        proof {
            if pad != 0xFF {
                law_pad_notes_distinct();
            }
        }
        return None;
    }
    proof {
        law_pad_notes_distinct();
        let q = choose|q: int| 0 <= q < PADS && q < pad_count && spec_pad_note(q) == key;
        assert(spec_pad_note(pad as int) == key);
    }
    Some(pad as usize)
}

/// No two pads share a trigger note, and every trigger note is a MIDI note.
pub proof fn law_pad_notes_distinct()
    ensures
        forall|p: int, q: int| 0 <= p < PADS && 0 <= q < PADS && p != q ==>
            spec_pad_note(p) != spec_pad_note(q),
        forall|p: int| 0 <= p < PADS ==> spec_pad_note(p) < 128,
{
    assert forall|p: int, q: int| 0 <= p < PADS && 0 <= q < PADS && p != q implies
        spec_pad_note(p) != spec_pad_note(q) by {
        if p < 16 || q < 16 {
            assert(bank_a()[0] == 37);
        }
    }
}


/// A pad's trigger note triggers that pad, once the pad count includes it.
pub proof fn law_note_triggers_its_pad(pad: int, pad_count: int)
    requires
        0 <= pad < PADS,
        pad < pad_count,
    ensures
        spec_pad_for_note(spec_pad_note(pad) as int, pad_count) == Some(pad),
{
    law_pad_notes_distinct();
    let key = spec_pad_note(pad) as int;
    assert(0 <= pad < PADS && pad < pad_count && spec_pad_note(pad) == key);
}

/// Banks B to D start at note 50 and count up, skipping exactly the notes
/// bank A uses: each later pad's note is above the one before, is not a
/// bank-A note, and every note strictly between two neighbours is a bank-A
/// note.
pub proof fn law_later_banks_skip_bank_a()
    ensures
        spec_pad_note(16) == 50,
        forall|p: int| 16 <= p < PADS ==> !bank_a().contains(#[trigger] spec_pad_note(p)),
        forall|p: int| 16 <= p < PADS - 1 ==> #[trigger] spec_pad_note(p) < spec_pad_note(p + 1),
        forall|p: int, n: int| #![trigger spec_pad_note(p), bank_a().contains(n as u8)]
            16 <= p < PADS - 1 && spec_pad_note(p) < n < spec_pad_note(p + 1)
            ==> bank_a().contains(n as u8),
{
    assert forall|p: int| 16 <= p < PADS implies !bank_a().contains(#[trigger] spec_pad_note(p)) by {
        let n = spec_pad_note(p);
        if bank_a().contains(n) {
            let i = choose|i: int| 0 <= i < bank_a().len() && bank_a()[i] == n;
            assert(false);
        }
    }
    assert forall|p: int, n: int| #![trigger spec_pad_note(p), bank_a().contains(n as u8)]
        16 <= p < PADS - 1 && spec_pad_note(p) < n < spec_pad_note(p + 1)
        implies bank_a().contains(n as u8) by {
        if p == 16 {
            assert(bank_a()[14] == 51);
        } else if p == 17 {
            assert(bank_a()[15] == 53);
        } else if p == 18 {
            assert(bank_a()[13] == 55);
        } else {
            assert(bank_a()[3] == 82);
        }
    }
}


// ---------------------------------------------------------------------------
// The parameter table
// ---------------------------------------------------------------------------

/// For `1 <= n < 128`: the exponent `e` of the highest set bit of `n`,
/// `2^e`, and `2^(52 - e)` (the weight of the lowest mantissa bit kept).
pub open spec fn small_int_scale(n: nat) -> (nat, nat, nat) {
    if n >= 64 {
        (6, 64, 0x4000_0000_0000)
    } else if n >= 32 {
        (5, 32, 0x8000_0000_0000)
    } else if n >= 16 {
        (4, 16, 0x1_0000_0000_0000)
    } else if n >= 8 {
        (3, 8, 0x2_0000_0000_0000)
    } else if n >= 4 {
        (2, 4, 0x4_0000_0000_0000)
    } else if n >= 2 {
        (1, 2, 0x8_0000_0000_0000)
    } else {
        (0, 1, 0x10_0000_0000_0000)
    }
}

/// The bit pattern of the 64-bit float equal to the integer `n` (< 128):
/// sign 0, biased exponent `1023 + e`, and the bits of `n` below its top
/// bit as the leading mantissa bits.
pub open spec fn small_int_bits(n: nat) -> u64 {
    if n == 0 {
        0
    } else {
        let (e, p, m) = small_int_scale(n);
        ((1023 + e) * 0x10_0000_0000_0000 + (n - p) * m) as u64
    }
}

fn int_bits(n: u8) -> (r: u64)
    requires
        n < 128,
    ensures
        r == small_int_bits(n as nat),
{
    if n == 0 {
        return 0;
    }
    let (e, p, m): (u64, u64, u64) = if n >= 64 {
        (6, 64, 0x4000_0000_0000)
    } else if n >= 32 {
        (5, 32, 0x8000_0000_0000)
    } else if n >= 16 {
        (4, 16, 0x1_0000_0000_0000)
    } else if n >= 8 {
        (3, 8, 0x2_0000_0000_0000)
    } else if n >= 4 {
        (2, 4, 0x4_0000_0000_0000)
    } else if n >= 2 {
        (1, 2, 0x8_0000_0000_0000)
    } else {
        (0, 1, 0x10_0000_0000_0000)
    };
    assert((n as u64 - p) * m < 0x10_0000_0000_0000) by (nonlinear_arith)
        requires
            n as u64 - p < p,
            p * m == 0x10_0000_0000_0000,
            p >= 1,
    ;
    (1023 + e) * 0x10_0000_0000_0000 + (n as u64 - p) * m
}

/// Name, bounds and default (as float bits) and whether it is stepped,
/// of a pad parameter, by offset. The root key's default here is 0; the
/// table gives each pad its own trigger note.
pub open spec fn pad_param_spec(off: int) -> (Seq<u8>, u64, u64, u64, bool) {
    if off == 0 {
        (seq![0x4cu8, 0x65, 0x76, 0x65, 0x6c], 0x0, 0x3ff0000000000000, 0x3ff0000000000000, false)
    } else if off == 1 {
        (seq![0x54u8, 0x75, 0x6e, 0x65], 0xc042000000000000, 0x4042000000000000, 0x0, false)
    } else if off == 2 {
        (seq![0x46u8, 0x69, 0x6e, 0x65, 0x20, 0x54, 0x75, 0x6e, 0x65], 0xc059000000000000, 0x4059000000000000, 0x0, false)
    } else if off == 3 {
        (seq![0x50u8, 0x61, 0x6e], 0xbff0000000000000, 0x3ff0000000000000, 0x0, false)
    } else if off == 4 {
        (seq![0x41u8, 0x74, 0x74, 0x61, 0x63, 0x6b], 0x3f50624dd2f1a9fc, 0x4000000000000000, 0x3f50624dd2f1a9fc, false)
    } else if off == 5 {
        (seq![0x44u8, 0x65, 0x63, 0x61, 0x79], 0x3f847ae147ae147b, 0x4020000000000000, 0x4010000000000000, false)
    } else if off == 6 {
        (seq![0x46u8, 0x69, 0x6c, 0x74, 0x65, 0x72, 0x20, 0x54, 0x79, 0x70, 0x65], 0x0, 0x4008000000000000, 0x0, true)
    } else if off == 7 {
        (seq![0x43u8, 0x75, 0x74, 0x6f, 0x66, 0x66], 0x4034000000000000, 0x40d3880000000000, 0x40d3880000000000, false)
    } else if off == 8 {
        (seq![0x52u8, 0x65, 0x73, 0x6f, 0x6e, 0x61, 0x6e, 0x63, 0x65], 0x0, 0x3ff0000000000000, 0x0, false)
    } else if off == 9 {
        (seq![0x4du8, 0x75, 0x74, 0x65, 0x20, 0x47, 0x72, 0x6f, 0x75, 0x70], 0x0, 0x4040000000000000, 0x0, true)
    } else if off == 10 {
        (seq![0x4fu8, 0x6e, 0x65, 0x20, 0x53, 0x68, 0x6f, 0x74], 0x0, 0x3ff0000000000000, 0x3ff0000000000000, true)
    } else {
        (seq![0x52u8, 0x6f, 0x6f, 0x74, 0x20, 0x4b, 0x65, 0x79], 0x0, 0x405fc00000000000, 0x0, true)
    }
}

fn pad_param_row(off: usize) -> (r: (Vec<u8>, u64, u64, u64, bool))
    requires
        off < PAD_PARAMS,
    ensures
        (r.0@, r.1, r.2, r.3, r.4) == pad_param_spec(off as int),
{
    let (name, mn, mx, d, st): (&[u8], u64, u64, u64, bool) = 
    if off == 0 {
        (&[0x4c, 0x65, 0x76, 0x65, 0x6c], 0x0, 0x3ff0000000000000, 0x3ff0000000000000, false)
    } else if off == 1 {
        (&[0x54, 0x75, 0x6e, 0x65], 0xc042000000000000, 0x4042000000000000, 0x0, false)
    } else if off == 2 {
        (&[0x46, 0x69, 0x6e, 0x65, 0x20, 0x54, 0x75, 0x6e, 0x65], 0xc059000000000000, 0x4059000000000000, 0x0, false)
    } else if off == 3 {
        (&[0x50, 0x61, 0x6e], 0xbff0000000000000, 0x3ff0000000000000, 0x0, false)
    } else if off == 4 {
        (&[0x41, 0x74, 0x74, 0x61, 0x63, 0x6b], 0x3f50624dd2f1a9fc, 0x4000000000000000, 0x3f50624dd2f1a9fc, false)
    } else if off == 5 {
        (&[0x44, 0x65, 0x63, 0x61, 0x79], 0x3f847ae147ae147b, 0x4020000000000000, 0x4010000000000000, false)
    } else if off == 6 {
        (&[0x46, 0x69, 0x6c, 0x74, 0x65, 0x72, 0x20, 0x54, 0x79, 0x70, 0x65], 0x0, 0x4008000000000000, 0x0, true)
    } else if off == 7 {
        (&[0x43, 0x75, 0x74, 0x6f, 0x66, 0x66], 0x4034000000000000, 0x40d3880000000000, 0x40d3880000000000, false)
    } else if off == 8 {
        (&[0x52, 0x65, 0x73, 0x6f, 0x6e, 0x61, 0x6e, 0x63, 0x65], 0x0, 0x3ff0000000000000, 0x0, false)
    } else if off == 9 {
        (&[0x4d, 0x75, 0x74, 0x65, 0x20, 0x47, 0x72, 0x6f, 0x75, 0x70], 0x0, 0x4040000000000000, 0x0, true)
    } else if off == 10 {
        (&[0x4f, 0x6e, 0x65, 0x20, 0x53, 0x68, 0x6f, 0x74], 0x0, 0x3ff0000000000000, 0x3ff0000000000000, true)
    } else {
        (&[0x52, 0x6f, 0x6f, 0x74, 0x20, 0x4b, 0x65, 0x79], 0x0, 0x405fc00000000000, 0x0, true)
    };
    let mut v: Vec<u8> = Vec::new();
    v.extend_from_slice(name);
    (v, mn, mx, d, st)
}


/// A pad's label: its bank letter (A to D) and its number in the bank
/// (01 to 16).
pub open spec fn pad_label(pad: int) -> Seq<u8> {
    seq![(0x41 + pad / 16) as u8, (0x30 + (pad % 16 + 1) / 10) as u8, (0x30 + (pad % 16 + 1) % 10) as u8]
}

/// Entry `i` of the parameter table: the master level, the pad count
/// (hidden), then twelve parameters per pad, named "Pad <label> <name>"
/// in the group "Pads/<label>"; a pad's root key defaults to its trigger
/// note.
pub open spec fn table_entry(i: int) -> ParamView {
    if i == 0 {
        ParamView {
            id: 0,
            flags: PARAM_IS_AUTOMATABLE,
            name: seq![0x4du8, 0x61, 0x73, 0x74, 0x65, 0x72, 0x20, 0x4c, 0x65, 0x76, 0x65, 0x6c, 0x00],
            module: seq![0u8],
            min_bits: 0,
            max_bits: 0x3ff0000000000000,
            default_bits: 0x3ff0000000000000,
        }
    } else if i == 1 {
        ParamView {
            id: 1,
            flags: PARAM_IS_STEPPED | PARAM_IS_HIDDEN,
            name: seq![0x50u8, 0x61, 0x64, 0x20, 0x43, 0x6f, 0x75, 0x6e, 0x74, 0x00],
            module: seq![0u8],
            min_bits: 0x3ff0000000000000,
            max_bits: 0x4050000000000000,
            default_bits: 0x4030000000000000,
        }
    } else {
        let pad = (i - 2) / 12;
        let off = (i - 2) % 12;
        let (pname, mn, mx, d, stepped) = pad_param_spec(off);
        ParamView {
            id: param_id(pad, off) as u32,
            flags: if stepped { PARAM_IS_AUTOMATABLE | PARAM_IS_STEPPED } else { PARAM_IS_AUTOMATABLE },
            name: seq![0x50u8, 0x61, 0x64, 0x20] + pad_label(pad) + seq![0x20u8] + pname + seq![0u8],
            module: seq![0x50u8, 0x61, 0x64, 0x73, 0x2f] + pad_label(pad) + seq![0u8],
            min_bits: mn,
            max_bits: mx,
            default_bits: if off == 11 { small_int_bits(spec_pad_note(pad) as nat) } else { d },
        }
    }
}

/// The number of parameters: two globals and twelve per pad.
pub const PARAM_COUNT: usize = 770;

fn label_bytes(pad: usize) -> (r: [u8; 3])
    requires
        pad < PADS,
    ensures
        r@ == pad_label(pad as int),
{
    let n = pad % 16 + 1;
    let r = [(0x41 + pad / 16) as u8, (0x30 + n / 10) as u8, (0x30 + n % 10) as u8];
    assert(r@ =~= pad_label(pad as int));
    r
}

fn pad_entry(pad: usize, off: usize) -> (r: ParamDef)
    requires
        pad < PADS,
        off < PAD_PARAMS,
    ensures
        r.view() == table_entry(2 + pad * 12 + off),
{
    let i: usize = 2 + pad * 12 + off;
    assert((i - 2) / 12 == pad && (i - 2) % 12 == off) by (nonlinear_arith)
        requires
            i == 2 + pad * 12 + off,
            off < 12,
    ;
    let (pname, mn, mx, d, stepped) = pad_param_row(off);
    let label = label_bytes(pad);
    let mut name: Vec<u8> = Vec::new();
    name.push(0x50);
    name.push(0x61);
    name.push(0x64);
    name.push(0x20);
    name.extend_from_slice(label.as_slice());
    name.push(0x20);
    name.extend_from_slice(pname.as_slice());
    name.push(0);
    let mut module: Vec<u8> = Vec::new();
    module.push(0x50);
    module.push(0x61);
    module.push(0x64);
    module.push(0x73);
    module.push(0x2f);
    module.extend_from_slice(label.as_slice());
    module.push(0);
    let default_bits = if off == 11 { int_bits(pad_note(pad)) } else { d };
    proof {
        law_pad_notes_distinct();
        law_param_ids(pad as int, off as int, pad as int, off as int);
    }
    let id = PAD_ID_BASE + (pad as u32) * PAD_ID_STRIDE + off as u32;
    let r = ParamDef {
        id,
        flags: if stepped { PARAM_IS_AUTOMATABLE | PARAM_IS_STEPPED } else { PARAM_IS_AUTOMATABLE },
        name,
        module,
        min_bits: mn,
        max_bits: mx,
        default_bits,
    };
    assert(r.view().name =~= table_entry(i as int).name);
    assert(r.view().module =~= table_entry(i as int).module);
    r
}

/// The full parameter table, in values-array order.
pub fn param_defs() -> (r: Vec<ParamDef>)
    ensures
        r@.len() == PARAM_COUNT,
        forall|i: int| 0 <= i < PARAM_COUNT ==> #[trigger] r@[i].view() == table_entry(i),
{
    let mut r: Vec<ParamDef> = Vec::new();
    let mut master_name: Vec<u8> = Vec::new();
    master_name.extend_from_slice(&[0x4d, 0x61, 0x73, 0x74, 0x65, 0x72, 0x20, 0x4c, 0x65, 0x76, 0x65, 0x6c, 0x00]);
    let mut m0: Vec<u8> = Vec::new();
    m0.push(0);
    r.push(ParamDef {
        id: 0,
        flags: PARAM_IS_AUTOMATABLE,
        name: master_name,
        module: m0,
        min_bits: 0,
        max_bits: 0x3ff0000000000000,
        default_bits: 0x3ff0000000000000,
    });
    assert(r@[0].view().name =~= table_entry(0).name);
    let mut count_name: Vec<u8> = Vec::new();
    count_name.extend_from_slice(&[0x50, 0x61, 0x64, 0x20, 0x43, 0x6f, 0x75, 0x6e, 0x74, 0x00]);
    let mut m1: Vec<u8> = Vec::new();
    m1.push(0);
    r.push(ParamDef {
        id: 1,
        flags: PARAM_IS_STEPPED | PARAM_IS_HIDDEN,
        name: count_name,
        module: m1,
        min_bits: 0x3ff0000000000000,
        max_bits: 0x4050000000000000,
        default_bits: 0x4030000000000000,
    });
    assert(r@[1].view().name =~= table_entry(1).name);
    let mut k: usize = 0;
    while k < PADS * PAD_PARAMS
        invariant
            k <= PADS * PAD_PARAMS,
            r@.len() == 2 + k,
            forall|i: int| 0 <= i < 2 + k ==> #[trigger] r@[i].view() == table_entry(i),
        decreases PADS * PAD_PARAMS - k,
    {
        let pad = k / 12;
        let off = k % 12;
        assert(2 + pad * 12 + off == 2 + k) by (nonlinear_arith)
            requires
                pad == k / 12,
                off == k % 12,
        ;
        r.push(pad_entry(pad, off));
        k += 1;
    }
    r
}

/// Every entry's id resolves to the entry's own index, and each pad's root
/// key defaults to the pad's trigger note.
pub proof fn law_table_ids_resolve(i: int)
    requires
        0 <= i < PARAM_COUNT,
    ensures
        spec_param_index(table_entry(i).id) == Some(i),
        i >= 2 && (i - 2) % 12 == 11 ==> table_entry(i).default_bits == small_int_bits(
            spec_pad_note((i - 2) / 12) as nat,
        ),
{
    if i >= 2 {
        let pad = (i - 2) / 12;
        let off = (i - 2) % 12;
        law_param_ids(pad, off, pad, off);
        assert(value_index(pad, off) == i);
    }
}

} // verus!
