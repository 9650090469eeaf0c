//! What a plugin reads and writes at its edges: the messages its web UI
//! sends, the parameter snapshot it sends back, its saved state, and the
//! strings it hands the host. Parameter values are 64-bit floats and travel
//! here as their bit patterns.
use vstd::prelude::*;
use crate::cbor::read_head;
use crate::wire::{le_bytes, le_value, be_bytes, be_value, push_le, push_be, read_le, read_be,
    lemma_le_roundtrip, lemma_le_bytes_len, lemma_be_roundtrip, lemma_be_bytes_len,
    lemma_le_value_bound, lemma_be_value_bound, lemma_pow256_values, pow256};

verus! {

// ---------------------------------------------------------------------------
// Messages from the UI
// ---------------------------------------------------------------------------

/// A message from the plugin's UI.
#[derive(Debug, Clone, Copy, PartialEq, Eq, Structural)]
pub enum UiMessage {
    /// The text "ready": the UI (re)opened and wants the current values.
    Ready,
    /// `{set: [id, value]}`: set parameter `id` to the float with bits `value_bits`.
    SetParam { id: u32, value_bits: u64 },
    /// Anything else; dropped.
    Ignored,
}

/// `65 'r' 'e' 'a' 'd' 'y'`: the CBOR text "ready".
pub open spec fn ready_bytes() -> Seq<u8> {
    seq![0x65u8, 0x72, 0x65, 0x61, 0x64, 0x79]
}

/// `A1 63 's' 'e' 't' 82 1A`: a one-entry map with key "set" holding a
/// two-item array whose first item is a 4-byte unsigned integer.
pub open spec fn set_prefix() -> Seq<u8> {
    seq![0xa1u8, 0x63, 0x73, 0x65, 0x74, 0x82, 0x1a]
}

/// What a UI message says. A set message is at least 20 bytes: the
/// prefix, the id big-endian, `FB`, and the value's bits big-endian.
pub open spec fn spec_ui_message(b: Seq<u8>) -> UiMessage {
    if b == ready_bytes() {
        UiMessage::Ready
    } else if b.len() < 20 || b.subrange(0, 7) != set_prefix() || b[11] != 0xfb {
        UiMessage::Ignored
    } else {
        UiMessage::SetParam {
            id: be_value(b.subrange(7, 11)) as u32,
            value_bits: be_value(b.subrange(12, 20)) as u64,
        }
    }
}

/// The message the UI sends to set parameter `id` to the float with bits
/// `value_bits`.
pub open spec fn set_message(id: u32, value_bits: u64) -> Seq<u8> {
    set_prefix() + be_bytes(id as nat, 4) + seq![0xfbu8] + be_bytes(value_bits as nat, 8)
}

/// A set message reads back as the parameter and value it carries.
pub proof fn law_set_message_round_trip(id: u32, value_bits: u64)
    ensures
        spec_ui_message(set_message(id, value_bits)) == (UiMessage::SetParam { id, value_bits }),
{
    lemma_pow256_values();
    let m = set_message(id, value_bits);
    lemma_be_bytes_len(id as nat, 4);
    lemma_be_bytes_len(value_bits as nat, 8);
    lemma_be_roundtrip(id as nat, 4);
    lemma_be_roundtrip(value_bits as nat, 8);
    assert(m.subrange(0, 7) =~= set_prefix());
    assert(m.subrange(7, 11) =~= be_bytes(id as nat, 4));
    assert(m.subrange(12, 20) =~= be_bytes(value_bits as nat, 8));
    assert(m != ready_bytes()) by {
        assert(m.len() != ready_bytes().len());
    }
}

fn bytes_eq(b: &[u8], at: usize, lit: &[u8]) -> (r: bool)
    requires
        at + lit@.len() <= b@.len(),
    ensures
        r == (b@.subrange(at as int, at + lit@.len()) == lit@),
{
    let mut i: usize = 0;
    assert(b@.len() == b.len());
    while i < lit.len()
        invariant
            i <= lit@.len(),
            at + lit@.len() <= b@.len(),
            b@.len() <= usize::MAX,
            forall|j: int| 0 <= j < i ==> b@[at + j] == lit@[j],
        decreases lit@.len() - i,
    {
        if b[at + i] != lit[i] {
            assert(b@.subrange(at as int, at + lit@.len())[i as int] != lit@[i as int]);
            return false;
        }
        i += 1;
    }
    assert(b@.subrange(at as int, at + lit@.len()) =~= lit@);
    true
}

/// Reads one message from the UI.
pub fn ui_message(b: &[u8]) -> (r: UiMessage)
    ensures
        r == spec_ui_message(b@),
{
    let ready: [u8; 6] = [0x65, 0x72, 0x65, 0x61, 0x64, 0x79];
    assert(ready@ =~= ready_bytes());
    if b.len() == 6 && bytes_eq(b, 0, ready.as_slice()) {
        assert(b@.subrange(0, 6) =~= b@);
        return UiMessage::Ready;
    }
    proof {
        if b@ == ready_bytes() {
            assert(b@.subrange(0, 6) =~= b@);
        }
    }
    if b.len() < 20 {
        return UiMessage::Ignored;
    }
    let prefix: [u8; 7] = [0xa1, 0x63, 0x73, 0x65, 0x74, 0x82, 0x1a];
    assert(prefix@ =~= set_prefix());
    if !bytes_eq(b, 0, prefix.as_slice()) || b[11] != 0xfb {
        return UiMessage::Ignored;
    }
    proof {
        lemma_be_value_bound(b@.subrange(7, 11));
        lemma_pow256_values();
    }
    let id = read_be(b, 7, 4) as u32;
    let value_bits = read_be(b, 12, 8);
    UiMessage::SetParam { id, value_bits }
}

// ---------------------------------------------------------------------------
// The parameter snapshot for the UI
// ---------------------------------------------------------------------------

/// `{params: {id: value, ..}}` for up to 255 parameters: each id as a
/// 4-byte unsigned integer, each value as a 64-bit float.
pub open spec fn snapshot_bytes(pairs: Seq<(u32, u64)>) -> Seq<u8> {
    seq![0xa1u8, 0x66, 0x70, 0x61, 0x72, 0x61, 0x6d, 0x73]
        + (if pairs.len() <= 23 { seq![(0xa0 + pairs.len()) as u8] } else { seq![0xb8u8, pairs.len() as u8] })
        + snapshot_entries(pairs)
}

pub open spec fn snapshot_entries(pairs: Seq<(u32, u64)>) -> Seq<u8>
    decreases pairs.len(),
{
    if pairs.len() == 0 {
        Seq::empty()
    } else {
        snapshot_entries(pairs.drop_last()) + seq![0x1au8] + be_bytes(pairs.last().0 as nat, 4)
            + seq![0xfbu8] + be_bytes(pairs.last().1 as nat, 8)
    }
}

/// The snapshot of the given (id, value bits) pairs; `None` when there are
/// none or more than 255.
pub fn params_snapshot(pairs: &Vec<(u32, u64)>) -> (r: Option<Vec<u8>>)
    ensures
        (pairs@.len() == 0 || pairs@.len() > 255) ==> r is None,
        (0 < pairs@.len() <= 255) ==> (r matches Some(b) && b@ == snapshot_bytes(pairs@)),
{
    let n = pairs.len();
    if n == 0 || n > 255 {
        return None;
    }
    let mut buf: Vec<u8> = Vec::new();
    buf.push(0xa1);
    buf.push(0x66);
    buf.push(0x70);
    buf.push(0x61);
    buf.push(0x72);
    buf.push(0x61);
    buf.push(0x6d);
    buf.push(0x73);
    if n <= 23 {
        buf.push(0xa0 + n as u8);
    } else {
        buf.push(0xb8);
        buf.push(n as u8);
    }
    let ghost head = buf@;
    assert(head =~= seq![0xa1u8, 0x66, 0x70, 0x61, 0x72, 0x61, 0x6d, 0x73]
        + (if pairs@.len() <= 23 { seq![(0xa0 + pairs@.len()) as u8] } else { seq![0xb8u8, pairs@.len() as u8] }));
    let mut i: usize = 0;
    assert(pairs@.take(0) =~= Seq::<(u32, u64)>::empty());
    while i < n
        invariant
            i <= n,
            n == pairs@.len(),
            buf@ == head + snapshot_entries(pairs@.take(i as int)),
        decreases n - i,
    {
        let (id, v) = pairs[i];
        buf.push(0x1a);
        push_be(&mut buf, id as u64, 4);
        buf.push(0xfb);
        push_be(&mut buf, v, 8);
        assert(pairs@.take(i + 1).drop_last() =~= pairs@.take(i as int));
        assert(buf@ =~= head + snapshot_entries(pairs@.take(i + 1)));
        i += 1;
    }
    assert(pairs@.take(i as int) =~= pairs@);
    Some(buf)
}

// ---------------------------------------------------------------------------
// Saved state
// ---------------------------------------------------------------------------

/// "PLST", little-endian.
pub const STATE_MAGIC: u32 = 0x504c_5354;
/// The most parameter entries a load reads, whatever the count says.
pub const STATE_MAX_ENTRIES: u32 = 4096;

/// A saved state: magic, version 1 and the entry count (u32s), then each
/// entry as its id (u32) and its value's bits (u64), all little-endian.
pub open spec fn state_bytes(pairs: Seq<(u32, u64)>) -> Seq<u8> {
    le_bytes(STATE_MAGIC as nat, 4) + le_bytes(1, 4) + le_bytes(pairs.len() % 0x1_0000_0000, 4) + state_entries(pairs)
}

pub open spec fn state_entries(pairs: Seq<(u32, u64)>) -> Seq<u8>
    decreases pairs.len(),
{
    if pairs.len() == 0 {
        Seq::empty()
    } else {
        state_entries(pairs.drop_last()) + le_bytes(pairs.last().0 as nat, 4) + le_bytes(pairs.last().1 as nat, 8)
    }
}

/// The saved state of the given (id, value bits) pairs.
pub fn save_state(pairs: &Vec<(u32, u64)>) -> (r: Vec<u8>)
    requires
        pairs@.len() <= u32::MAX,
    ensures
        r@ == state_bytes(pairs@),
{
    let mut buf: Vec<u8> = Vec::new();
    push_le(&mut buf, STATE_MAGIC as u64, 4);
    push_le(&mut buf, 1, 4);
    push_le(&mut buf, pairs.len() as u64, 4);
    let ghost head = buf@;
    let mut i: usize = 0;
    assert(pairs@.take(0) =~= Seq::<(u32, u64)>::empty());
    while i < pairs.len()
        invariant
            i <= pairs@.len(),
            buf@ == head + state_entries(pairs@.take(i as int)),
        decreases pairs@.len() - i,
    {
        let (id, v) = pairs[i];
        push_le(&mut buf, id as u64, 4);
        push_le(&mut buf, v, 8);
        assert(pairs@.take(i + 1).drop_last() =~= pairs@.take(i as int));
        assert(buf@ =~= head + state_entries(pairs@.take(i + 1)));
        i += 1;
    }
    assert(pairs@.take(i as int) =~= pairs@);
    buf
}

/// Entry `i` of a state's body, read from `b`.
pub open spec fn entry_at(b: Seq<u8>, i: int) -> (u32, u64) {
    (le_value(b.subrange(12 + 12 * i, 16 + 12 * i)) as u32, le_value(b.subrange(16 + 12 * i, 24 + 12 * i)) as u64)
}

/// What loading a state applies, and whether the load succeeded: a bad
/// header applies nothing and fails; otherwise the first
/// `min(count, 4096)` entries are applied in order, as far as the bytes
/// hold whole entries, and the load fails if they run out first.
pub open spec fn spec_load_state(b: Seq<u8>) -> (Seq<(u32, u64)>, bool) {
    if b.len() < 12 || le_value(b.subrange(0, 4)) != STATE_MAGIC || le_value(b.subrange(4, 8)) != 1 {
        (Seq::empty(), false)
    } else {
        let count = le_value(b.subrange(8, 12));
        let want = if count < STATE_MAX_ENTRIES { count } else { STATE_MAX_ENTRIES as nat };
        let have = (b.len() - 12) / 12;
        let n = if want <= have { want } else { have as nat };
        (Seq::new(n, |i: int| entry_at(b, i)), want <= have)
    }
}

/// Loads a saved state; see `spec_load_state`.
pub fn load_state(b: &[u8]) -> (r: (Vec<(u32, u64)>, bool))
    ensures
        (r.0@, r.1) == spec_load_state(b@),
{
    let mut out: Vec<(u32, u64)> = Vec::new();
    if b.len() < 12 {
        return (out, false);
    }
    proof {
        lemma_le_value_bound(b@.subrange(8, 12));
        lemma_pow256_values();
    }
    let magic = read_le(b, 0, 4);
    let version = read_le(b, 4, 4);
    let count = read_le(b, 8, 4);
    if magic != STATE_MAGIC as u64 || version != 1 {
        return (out, false);
    }
    let want: usize = if count < STATE_MAX_ENTRIES as u64 { count as usize } else { STATE_MAX_ENTRIES as usize };
    let have: usize = (b.len() - 12) / 12;
    let n: usize = if want <= have { want } else { have };
    let mut i: usize = 0;
    assert(b@.len() == b.len());
    while i < n
        invariant
            i <= n,
            n <= have,
            have == (b@.len() - 12) / 12,
            b@.len() >= 12,
            b@.len() <= usize::MAX,
            out@ == Seq::new(i as nat, |k: int| entry_at(b@, k)),
        decreases n - i,
    {
        assert(12 + 12 * i + 12 <= b@.len()) by (nonlinear_arith)
            requires
                i < have,
                have == (b@.len() - 12) / 12,
                b@.len() >= 12,
        ;
        let at = 12 + 12 * i;
        proof {
            lemma_le_value_bound(b@.subrange(at as int, at + 4));
        }
        let id = read_le(b, at, 4) as u32;
        let v = read_le(b, at + 4, 8);
        out.push((id, v));
        assert(out@ =~= Seq::new((i + 1) as nat, |k: int| entry_at(b@, k)));
        i += 1;
    }
    (out, want <= have)
}

proof fn lemma_state_entries_len(pairs: Seq<(u32, u64)>)
    ensures
        state_entries(pairs).len() == 12 * pairs.len(),
    decreases pairs.len(),
{
    if pairs.len() > 0 {
        lemma_state_entries_len(pairs.drop_last());
        lemma_le_bytes_len(pairs.last().0 as nat, 4);
        lemma_le_bytes_len(pairs.last().1 as nat, 8);
    }
}

proof fn lemma_state_entry(pairs: Seq<(u32, u64)>, i: int)
    requires
        0 <= i < pairs.len(),
    ensures
        state_entries(pairs).subrange(12 * i, 12 * i + 4) == le_bytes(pairs[i].0 as nat, 4),
        state_entries(pairs).subrange(12 * i + 4, 12 * i + 12) == le_bytes(pairs[i].1 as nat, 8),
    decreases pairs.len(),
{
    let p = pairs.drop_last();
    lemma_state_entries_len(p);
    lemma_le_bytes_len(pairs.last().0 as nat, 4);
    lemma_le_bytes_len(pairs.last().1 as nat, 8);
    let e = state_entries(pairs);
    if i < pairs.len() - 1 {
        lemma_state_entry(p, i);
        assert(e.subrange(12 * i, 12 * i + 4) =~= state_entries(p).subrange(12 * i, 12 * i + 4));
        assert(e.subrange(12 * i + 4, 12 * i + 12) =~= state_entries(p).subrange(12 * i + 4, 12 * i + 12));
    } else {
        assert(e.subrange(12 * i, 12 * i + 4) =~= le_bytes(pairs[i].0 as nat, 4));
        assert(e.subrange(12 * i + 4, 12 * i + 12) =~= le_bytes(pairs[i].1 as nat, 8));
    }
}

/// Loading a saved state applies exactly the saved values, in order, and
/// succeeds, for up to 4096 parameters.
pub proof fn law_load_save(pairs: Seq<(u32, u64)>)
    requires
        pairs.len() <= STATE_MAX_ENTRIES,
    ensures
        spec_load_state(state_bytes(pairs)) == (pairs, true),
{
    lemma_pow256_values();
    let b = state_bytes(pairs);
    lemma_le_bytes_len(STATE_MAGIC as nat, 4);
    lemma_le_bytes_len(1, 4);
    lemma_le_bytes_len(pairs.len() as nat, 4);
    lemma_le_roundtrip(STATE_MAGIC as nat, 4);
    lemma_le_roundtrip(1, 4);
    lemma_le_roundtrip(pairs.len() as nat, 4);
    lemma_state_entries_len(pairs);
    let e = state_entries(pairs);
    assert(b.subrange(0, 4) =~= le_bytes(STATE_MAGIC as nat, 4));
    assert(b.subrange(4, 8) =~= le_bytes(1, 4));
    assert(b.subrange(8, 12) =~= le_bytes(pairs.len() as nat, 4));
    assert(b.len() == 12 + 12 * pairs.len());
    assert((b.len() - 12) / 12 == pairs.len());
    let loaded = spec_load_state(b).0;
    assert forall|i: int| 0 <= i < pairs.len() implies #[trigger] entry_at(b, i) == pairs[i] by {
        lemma_state_entry(pairs, i);
        assert(b.subrange(12 + 12 * i, 16 + 12 * i) =~= e.subrange(12 * i, 12 * i + 4));
        assert(b.subrange(16 + 12 * i, 24 + 12 * i) =~= e.subrange(12 * i + 4, 12 * i + 12));
        lemma_le_roundtrip(pairs[i].0 as nat, 4);
        lemma_le_roundtrip(pairs[i].1 as nat, 8);
    }
    assert(loaded =~= pairs);
}

// ---------------------------------------------------------------------------
// Strings for the host
// ---------------------------------------------------------------------------

/// The bytes before the first NUL (all of them when there is none).
pub open spec fn before_nul(s: Seq<u8>) -> Seq<u8>
    decreases s.len(),
{
    if s.len() == 0 || s[0] == 0 {
        Seq::empty()
    } else {
        seq![s[0]] + before_nul(s.drop_first())
    }
}

fn nul_position(s: &[u8]) -> (r: usize)
    ensures
        r <= s@.len(),
        s@.subrange(0, r as int) == before_nul(s@),
{
    let mut i: usize = 0;
    while i < s.len()
        invariant
            i <= s@.len(),
            forall|j: int| 0 <= j < i ==> s@[j] != 0,
        decreases s@.len() - i,
    {
        if s[i] == 0 {
            proof { lemma_before_nul_at(s@, i as int); }
            return i;
        }
        i += 1;
    }
    proof { lemma_before_nul_at(s@, i as int); }
    i
}

proof fn lemma_before_nul_at(s: Seq<u8>, i: int)
    requires
        0 <= i <= s.len(),
        forall|j: int| 0 <= j < i ==> s[j] != 0,
        i == s.len() || s[i] == 0,
    ensures
        s.subrange(0, i) == before_nul(s),
    decreases s.len(),
{
    if i > 0 {
        lemma_before_nul_at(s.drop_first(), i - 1);
        assert(s.subrange(0, i) =~= seq![s[0]] + s.drop_first().subrange(0, i - 1));
    } else {
        assert(s.subrange(0, 0) =~= Seq::<u8>::empty());
    }
}

/// What a fixed-capacity string field receives: the source up to its NUL,
/// cut to `cap - 1` bytes, then a NUL.
pub open spec fn field_string(src: Seq<u8>, cap: nat) -> Seq<u8> {
    let s = before_nul(src);
    let limit = if cap == 0 { 0 } else { (cap - 1) as nat };
    s.take(if s.len() < limit { s.len() as int } else { limit as int }).push(0u8)
}

/// The bytes to write into a string field of capacity `cap`.
pub fn write_str_into(cap: usize, src: &[u8]) -> (r: Vec<u8>)
    ensures
        r@ == field_string(src@, cap as nat),
{
    let src_len = nul_position(src);
    let limit = if cap == 0 { 0 } else { cap - 1 };
    let n = if src_len < limit { src_len } else { limit };
    let mut out: Vec<u8> = Vec::new();
    let mut i: usize = 0;
    while i < n
        invariant
            i <= n,
            n <= src_len,
            src_len <= src@.len(),
            out@ == src@.subrange(0, i as int),
        decreases n - i,
    {
        out.push(src[i]);
        assert(out@ =~= src@.subrange(0, i + 1));
        i += 1;
    }
    out.push(0);
    proof {
        let s = before_nul(src@);
        assert(s =~= src@.subrange(0, src_len as int));
        assert(out@ =~= field_string(src@, cap as nat));
    }
    out
}

pub open spec fn file_scheme() -> Seq<u8> {
    seq![0x66u8, 0x69, 0x6c, 0x65, 0x3a]
}

/// The UI's address: `file:`, the module path, the UI path.
pub open spec fn ui_uri(mod_path: Seq<u8>, ui_path: Seq<u8>) -> Seq<u8> {
    file_scheme() + mod_path + ui_path
}

/// The answer to a request for the UI's address into a buffer of `cap`
/// bytes: the address's full length, and what goes into the buffer: for a
/// nonzero `cap` as much of the address as fits before a NUL, then the
/// NUL; for `cap == 0` nothing (a probe for the length).
pub fn ui_uri_into(mod_path: &[u8], ui_path: &[u8], cap: u32) -> (r: (u32, Vec<u8>))
    requires
        5 + mod_path@.len() + ui_path@.len() <= u32::MAX,
    ensures
        r.0 == ui_uri(mod_path@, ui_path@).len(),
        cap == 0 ==> r.1@.len() == 0,
        cap > 0 ==> r.1@ == ui_uri(mod_path@, ui_path@).take(
            if r.0 < cap - 1 { r.0 as int } else { cap - 1 },
        ).push(0u8),
{
    let total = 5 + mod_path.len() as u32 + ui_path.len() as u32;
    let mut out: Vec<u8> = Vec::new();
    if cap == 0 {
        return (total, out);
    }
    let writable = if total < cap - 1 { total } else { cap - 1 };
    let ghost uri = ui_uri(mod_path@, ui_path@);
    let scheme: [u8; 5] = [0x66, 0x69, 0x6c, 0x65, 0x3a];
    assert(scheme@ =~= file_scheme());
    let mut i: u32 = 0;
    while i < writable
        invariant
            i <= writable,
            writable <= total,
            total == uri.len(),
            uri == file_scheme() + mod_path@ + ui_path@,
            scheme@ == file_scheme(),
            out@ == uri.take(i as int),
        decreases writable - i,
    {
        let k = i as usize;
        let byte = if k < 5 {
            scheme[k]
        } else if k - 5 < mod_path.len() {
            mod_path[k - 5]
        } else {
            ui_path[k - 5 - mod_path.len()]
        };
        assert(byte == uri[i as int]);
        out.push(byte);
        assert(out@ =~= uri.take(i + 1));
        i += 1;
    }
    out.push(0);
    (total, out)
}

/// One snapshot entry: the id as a 4-byte CBOR unsigned integer, then the
/// value as a CBOR 64-bit float.
pub open spec fn entry_bytes(id: u32, bits: u64) -> Seq<u8> {
    seq![0x1au8] + be_bytes(id as nat, 4) + seq![0xfbu8] + be_bytes(bits as nat, 8)
}

proof fn lemma_entry_len(id: u32, bits: u64)
    ensures
        entry_bytes(id, bits).len() == 14,
{
    lemma_be_bytes_len(id as nat, 4);
    lemma_be_bytes_len(bits as nat, 8);
    let a = seq![0x1au8] + be_bytes(id as nat, 4);
    assert(a.len() == 5);
    let c = a + seq![0xfbu8];
    assert(c.len() == 6);
    assert((c + be_bytes(bits as nat, 8)).len() == 14);
}

proof fn lemma_entries_layout(pairs: Seq<(u32, u64)>)
    ensures
        snapshot_entries(pairs).len() == 14 * pairs.len(),
        forall|i: int| 0 <= i < pairs.len() ==> #[trigger] snapshot_entries(pairs).subrange(14 * i, 14 * i + 14)
            == entry_bytes(pairs[i].0, pairs[i].1),
    decreases pairs.len(),
{
    if pairs.len() > 0 {
        let init = pairs.drop_last();
        lemma_entries_layout(init);
        let l = pairs.last();
        lemma_entry_len(l.0, l.1);
        let e = snapshot_entries(pairs);
        assert(e =~= snapshot_entries(init) + entry_bytes(l.0, l.1));
        assert forall|i: int| 0 <= i < pairs.len() implies #[trigger] e.subrange(14 * i, 14 * i + 14)
            == entry_bytes(pairs[i].0, pairs[i].1) by {
            if i < init.len() {
                assert(e.subrange(14 * i, 14 * i + 14) =~= snapshot_entries(init).subrange(14 * i, 14 * i + 14));
                assert(init[i] == pairs[i]);
            } else {
                assert(e.subrange(14 * i, 14 * i + 14) =~= entry_bytes(l.0, l.1));
            }
        }
    }
}

/// The snapshot reads back, as CBOR, as the map `{"params": {...}}` whose
/// inner map declares exactly one entry per pair, each entry being the
/// pair's id as an unsigned integer and its value bits as a 64-bit float,
/// in order, with nothing after the last.
#[verifier::rlimit(40)]
pub proof fn law_snapshot_reads_back(pairs: Seq<(u32, u64)>)
    requires
        0 < pairs.len() <= 255,
    ensures
        ({
            let b = snapshot_bytes(pairs);
            let h: int = if pairs.len() <= 23 { 1 } else { 2 };
            &&& read_head(b) == Some((0xa0u8, 1nat, 1nat))
            &&& read_head(b.skip(1)) == Some((0x60u8, 6nat, 1nat))
            &&& b.subrange(2, 8) == seq![0x70u8, 0x61, 0x72, 0x61, 0x6d, 0x73]
            &&& read_head(b.skip(8)) == Some((0xa0u8, pairs.len(), h as nat))
            &&& b.len() == 8 + h + 14 * pairs.len()
            &&& forall|i: int| #![trigger pairs[i]] 0 <= i < pairs.len() ==> {
                &&& read_head(b.skip(8 + h + 14 * i)) == Some((0x00u8, pairs[i].0 as nat, 5nat))
                &&& b[8 + h + 14 * i + 5] == 0xfbu8
                &&& be_value(b.subrange(8 + h + 14 * i + 6, 8 + h + 14 * i + 14)) == pairs[i].1 as nat
            }
        }),
{
    lemma_pow256_values();
    let b = snapshot_bytes(pairs);
    let n = pairs.len();
    let h: int = if n <= 23 { 1 } else { 2 };
    let head = seq![0xa1u8, 0x66, 0x70, 0x61, 0x72, 0x61, 0x6d, 0x73]
        + (if n <= 23 { seq![(0xa0 + n) as u8] } else { seq![0xb8u8, n as u8] });
    lemma_entries_layout(pairs);
    assert(b =~= head + snapshot_entries(pairs));
    assert(head.len() == 8 + h);
    assert(0xa1u8 & 0xe0u8 == 0xa0u8 && 0xa1u8 & 0x1fu8 == 1u8) by (bit_vector);
    assert(0x66u8 & 0xe0u8 == 0x60u8 && 0x66u8 & 0x1fu8 == 6u8) by (bit_vector);
    assert(b.subrange(2, 8) =~= seq![0x70u8, 0x61, 0x72, 0x61, 0x6d, 0x73]);
    if n <= 23 {
        let x = (0xa0 + n) as u8;
        let m = n as u8;
        assert(x & 0xe0u8 == 0xa0u8 && x & 0x1fu8 == m) by (bit_vector)
            requires
                x == 0xa0 + m,
                m < 24,
        ;
        assert(b.skip(8)[0] == x);
    } else {
        assert(0xb8u8 & 0xe0u8 == 0xa0u8 && 0xb8u8 & 0x1fu8 == 24u8) by (bit_vector);
        assert(b.skip(8)[0] == 0xb8u8);
        assert(b.skip(8)[1] == n as u8);
    }
    assert(0x1au8 & 0xe0u8 == 0x00u8 && 0x1au8 & 0x1fu8 == 26u8) by (bit_vector);
    assert forall|i: int| #![trigger pairs[i]] 0 <= i < n implies {
        &&& read_head(b.skip(8 + h + 14 * i)) == Some((0x00u8, pairs[i].0 as nat, 5nat))
        &&& b[8 + h + 14 * i + 5] == 0xfbu8
        &&& be_value(b.subrange(8 + h + 14 * i + 6, 8 + h + 14 * i + 14)) == pairs[i].1 as nat
    } by {
        let at = 8 + h + 14 * i;
        let e = entry_bytes(pairs[i].0, pairs[i].1);
        lemma_entry_len(pairs[i].0, pairs[i].1);
        lemma_be_bytes_len(pairs[i].0 as nat, 4);
        lemma_be_bytes_len(pairs[i].1 as nat, 8);
        lemma_be_roundtrip(pairs[i].0 as nat, 4);
        lemma_be_roundtrip(pairs[i].1 as nat, 8);
        assert(b.subrange(at, at + 14) =~= snapshot_entries(pairs).subrange(14 * i, 14 * i + 14));
        assert(b.subrange(at, at + 14) == e);
        assert(b.skip(at)[0] == e[0]);
        assert(b.skip(at).subrange(1, 5) =~= e.subrange(1, 5));
        assert(e.subrange(1, 5) =~= be_bytes(pairs[i].0 as nat, 4));
        assert(b[at + 5] == e[5]);
        assert(b.subrange(at + 6, at + 14) =~= e.subrange(6, 14));
        assert(e.subrange(6, 14) =~= be_bytes(pairs[i].1 as nat, 8));
    }
}

} // verus!
