//! Minimal MessagePack: the subset the NKSF chunks use (nil, bool,
//! integers, strings, arrays, string-keyed maps).
//!
//! The wire format is stated twice: `spec_encode` says which bytes a value
//! is written as, `spec_decode` says what a byte string reads as. The
//! executable `encode` and `decode` are proved against them, and
//! `law_decode_encode` proves that reading back what was written gives the
//! value again.
use vstd::prelude::*;
use vstd::utf8::*;
use crate::wire::{be_bytes, be_value, push_be, read_be, pow256, lemma_be_roundtrip, lemma_be_bytes_len, lemma_be_value_bound, lemma_pow256_values};
use crate::text::{push_decimal, push_signed_decimal, push_hex2, string_of, hex2};
use vstd::string::StringExecFns;

verus! {

broadcast use vstd::seq_lib::group_seq_properties;

/// A MessagePack value of the subset this codec speaks.
#[derive(Debug, PartialEq, Eq)]
pub enum Value {
    Nil,
    Bool(bool),
    Int(i64),
    Str(String),
    Arr(Vec<Value>),
    Mapping(Vec<(String, Value)>),
}

/// The mathematical model of a [`Value`]: strings are their characters.
pub enum SpecValue {
    Nil,
    Bool(bool),
    Int(i64),
    Str(Seq<char>),
    Arr(Seq<SpecValue>),
    Mapping(Seq<(Seq<char>, SpecValue)>),
}

pub open spec fn view_value(v: Value) -> SpecValue
    decreases v,
{
    match v {
        Value::Nil => SpecValue::Nil,
        Value::Bool(b) => SpecValue::Bool(b),
        Value::Int(n) => SpecValue::Int(n),
        Value::Str(s) => SpecValue::Str(s@),
        Value::Arr(a) => SpecValue::Arr(view_list(a@)),
        Value::Mapping(p) => SpecValue::Mapping(view_pairs(p@)),
    }
}

pub open spec fn view_list(s: Seq<Value>) -> Seq<SpecValue>
    decreases s,
{
    if s.len() == 0 {
        Seq::empty()
    } else {
        view_list(s.drop_last()).push(view_value(s.last()))
    }
}

pub open spec fn view_pairs(s: Seq<(String, Value)>) -> Seq<(Seq<char>, SpecValue)>
    decreases s,
{
    if s.len() == 0 {
        Seq::empty()
    } else {
        view_pairs(s.drop_last()).push((s.last().0@, view_value(s.last().1)))
    }
}

impl View for Value {
    type V = SpecValue;

    open spec fn view(&self) -> SpecValue {
        view_value(*self)
    }
}

pub proof fn lemma_view_list(s: Seq<Value>)
    ensures
        view_list(s).len() == s.len(),
        forall|i: int| 0 <= i < s.len() ==> #[trigger] view_list(s)[i] == view_value(s[i]),
    decreases s.len(),
{
    if s.len() > 0 {
        lemma_view_list(s.drop_last());
    }
}

pub proof fn lemma_view_pairs(s: Seq<(String, Value)>)
    ensures
        view_pairs(s).len() == s.len(),
        forall|i: int|
            0 <= i < s.len() ==> #[trigger] view_pairs(s)[i] == (s[i].0@, view_value(s[i].1)),
    decreases s.len(),
{
    if s.len() > 0 {
        lemma_view_pairs(s.drop_last());
    }
}

// ---------------------------------------------------------------------------
// Kinds
// ---------------------------------------------------------------------------

/// A number for each kind of value: nil, bool, integer, string, array, map.
pub open spec fn kind_code(v: SpecValue) -> u8 {
    match v {
        SpecValue::Nil => 0,
        SpecValue::Bool(_) => 1,
        SpecValue::Int(_) => 2,
        SpecValue::Str(_) => 3,
        SpecValue::Arr(_) => 4,
        SpecValue::Mapping(_) => 5,
    }
}

/// The name of a kind, as error messages print it.
pub open spec fn kind_name(code: u8) -> Seq<char> {
    if code == 0 {
        seq!['n', 'i', 'l']
    } else if code == 1 {
        seq!['b', 'o', 'o', 'l']
    } else if code == 2 {
        seq!['i', 'n', 't', 'e', 'g', 'e', 'r']
    } else if code == 3 {
        seq!['s', 't', 'r', 'i', 'n', 'g']
    } else if code == 4 {
        seq!['a', 'r', 'r', 'a', 'y']
    } else {
        seq!['m', 'a', 'p']
    }
}

impl Value {
    /// The name of this value's kind.
    pub fn kind(&self) -> (r: &'static str)
        ensures
            r@ == kind_name(kind_code(self@)),
    {
        proof {
            reveal_strlit("nil");
            reveal_strlit("bool");
            reveal_strlit("integer");
            reveal_strlit("string");
            reveal_strlit("array");
            reveal_strlit("map");
        }
        match self {
            Value::Nil => "nil",
            Value::Bool(_) => "bool",
            Value::Int(_) => "integer",
            Value::Str(_) => "string",
            Value::Arr(_) => "array",
            Value::Mapping(_) => "map",
        }
    }

    /// The kind number of this value.
    pub fn kind_code(&self) -> (r: u8)
        ensures
            r == kind_code(self@),
    {
        match self {
            Value::Nil => 0,
            Value::Bool(_) => 1,
            Value::Int(_) => 2,
            Value::Str(_) => 3,
            Value::Arr(_) => 4,
            Value::Mapping(_) => 5,
        }
    }
}

/// The kind name of a kind number.
pub fn kind_str(code: u8) -> (r: &'static str)
    ensures
        r@ == kind_name(code),
{
    proof {
        reveal_strlit("nil");
        reveal_strlit("bool");
        reveal_strlit("integer");
        reveal_strlit("string");
        reveal_strlit("array");
        reveal_strlit("map");
    }
    if code == 0 {
        "nil"
    } else if code == 1 {
        "bool"
    } else if code == 2 {
        "integer"
    } else if code == 3 {
        "string"
    } else if code == 4 {
        "array"
    } else {
        "map"
    }
}

// ---------------------------------------------------------------------------
// The encoding
// ---------------------------------------------------------------------------

/// Two's complement of `n` in a width whose range is `m`.
pub open spec fn twos(n: int, m: nat) -> nat {
    if n < 0 {
        (n + m) as nat
    } else {
        n as nat
    }
}

/// The signed number that the unsigned `u` of a width whose range is `m` denotes.
pub open spec fn signed_of(u: nat, m: nat) -> int {
    if 2 * u >= m {
        u - m
    } else {
        u as int
    }
}

/// The shortest MessagePack integer encoding of `n`.
pub open spec fn enc_int(n: i64) -> Seq<u8> {
    if 0 <= n <= 127 {
        seq![n as u8]
    } else if -32 <= n < 0 {
        seq![(n + 256) as u8]
    } else if -128 <= n <= 127 {
        seq![0xd0u8, (n + 256) as u8]
    } else if -0x8000 <= n <= 0x7fff {
        seq![0xd1u8] + be_bytes(twos(n as int, 0x1_0000), 2)
    } else if -0x8000_0000 <= n <= 0x7fff_ffff {
        seq![0xd2u8] + be_bytes(twos(n as int, 0x1_0000_0000), 4)
    } else {
        seq![0xd3u8] + be_bytes(twos(n as int, 0x1_0000_0000_0000_0000), 8)
    }
}

/// A string: its UTF-8 bytes behind a length header.
pub open spec fn enc_str(s: Seq<char>) -> Seq<u8> {
    let b = encode_utf8(s);
    let n = b.len();
    if n < 32 {
        seq![(0xa0 + n) as u8] + b
    } else if n < 256 {
        seq![0xd9u8, n as u8] + b
    } else {
        seq![0xdau8] + be_bytes(n % 0x1_0000, 2) + b
    }
}

/// An array or map header for `n` items.
pub open spec fn len_header(n: nat, fix_base: u8, ext16: u8) -> Seq<u8> {
    if n < 16 {
        seq![(fix_base + n) as u8]
    } else {
        seq![ext16] + be_bytes(n % 0x1_0000, 2)
    }
}

/// The bytes a value is written as.
pub open spec fn spec_encode(v: SpecValue) -> Seq<u8>
    decreases v,
{
    match v {
        SpecValue::Nil => seq![0xc0u8],
        SpecValue::Bool(b) => seq![if b { 0xc3u8 } else { 0xc2u8 }],
        SpecValue::Int(n) => enc_int(n),
        SpecValue::Str(s) => enc_str(s),
        SpecValue::Arr(a) => len_header(a.len(), 0x90, 0xdc) + enc_list(a),
        SpecValue::Mapping(p) => len_header(p.len(), 0x80, 0xde) + enc_pairs(p),
    }
}

/// Array items, one after another.
pub open spec fn enc_list(s: Seq<SpecValue>) -> Seq<u8>
    decreases s,
{
    if s.len() == 0 {
        Seq::empty()
    } else {
        spec_encode(s[0]) + enc_list(s.drop_first())
    }
}

/// Map entries, each key followed by its value.
pub open spec fn enc_pairs(s: Seq<(Seq<char>, SpecValue)>) -> Seq<u8>
    decreases s,
{
    if s.len() == 0 {
        Seq::empty()
    } else {
        enc_str(s[0].0) + spec_encode(s[0].1) + enc_pairs(s.drop_first())
    }
}

/// A value that the encoding writes without losing anything: every
/// string's UTF-8 form, and every array and map, has fewer than 65536 items.
pub open spec fn encodable(v: SpecValue) -> bool
    decreases v,
{
    match v {
        SpecValue::Str(s) => encode_utf8(s).len() < 0x1_0000,
        SpecValue::Arr(a) => a.len() < 0x1_0000 && encodable_list(a),
        SpecValue::Mapping(p) => p.len() < 0x1_0000 && encodable_pairs(p),
        _ => true,
    }
}

pub open spec fn encodable_list(s: Seq<SpecValue>) -> bool
    decreases s,
{
    s.len() == 0 || (encodable(s[0]) && encodable_list(s.drop_first()))
}

pub open spec fn encodable_pairs(s: Seq<(Seq<char>, SpecValue)>) -> bool
    decreases s,
{
    s.len() == 0 || (encode_utf8(s[0].0).len() < 0x1_0000 && encodable(s[0].1)
        && encodable_pairs(s.drop_first()))
}

pub proof fn lemma_enc_list_push(s: Seq<SpecValue>, x: SpecValue)
    ensures
        enc_list(s.push(x)) == enc_list(s) + spec_encode(x),
    decreases s.len(),
{
    if s.len() == 0 {
        assert(s.push(x).drop_first() =~= s);
        assert(enc_list(s.push(x)) =~= enc_list(s) + spec_encode(x));
    } else {
        lemma_enc_list_push(s.drop_first(), x);
        assert(s.push(x).drop_first() =~= s.drop_first().push(x));
        assert(enc_list(s.push(x)) =~= enc_list(s) + spec_encode(x));
    }
}

pub proof fn lemma_enc_pairs_push(s: Seq<(Seq<char>, SpecValue)>, x: (Seq<char>, SpecValue))
    ensures
        enc_pairs(s.push(x)) == enc_pairs(s) + enc_str(x.0) + spec_encode(x.1),
    decreases s.len(),
{
    if s.len() == 0 {
        assert(s.push(x).drop_first() =~= s);
        assert(enc_pairs(s.push(x)) =~= enc_pairs(s) + enc_str(x.0) + spec_encode(x.1));
    } else {
        lemma_enc_pairs_push(s.drop_first(), x);
        assert(s.push(x).drop_first() =~= s.drop_first().push(x));
        assert(enc_pairs(s.push(x)) =~= enc_pairs(s) + enc_str(x.0) + spec_encode(x.1));
    }
}

/// The number of values in a value, itself and all it holds.
pub open spec fn size(v: SpecValue) -> nat
    decreases v,
{
    match v {
        SpecValue::Arr(a) => 1 + size_list(a),
        SpecValue::Mapping(p) => 1 + size_pairs(p),
        _ => 1,
    }
}

pub open spec fn size_list(s: Seq<SpecValue>) -> nat
    decreases s,
{
    if s.len() == 0 {
        0
    } else {
        1 + size(s[0]) + size_list(s.drop_first())
    }
}

pub open spec fn size_pairs(s: Seq<(Seq<char>, SpecValue)>) -> nat
    decreases s,
{
    if s.len() == 0 {
        0
    } else {
        1 + size(s[0].1) + size_pairs(s.drop_first())
    }
}

pub proof fn lemma_size_list_item(s: Seq<SpecValue>, i: int)
    requires
        0 <= i < s.len(),
    ensures
        size(s[i]) < size_list(s),
    decreases s.len(),
{
    if i > 0 {
        lemma_size_list_item(s.drop_first(), i - 1);
    }
}

pub proof fn lemma_size_pairs_item(s: Seq<(Seq<char>, SpecValue)>, i: int)
    requires
        0 <= i < s.len(),
    ensures
        size(s[i].1) < size_pairs(s),
    decreases s.len(),
{
    if i > 0 {
        lemma_size_pairs_item(s.drop_first(), i - 1);
    }
}

// ---------------------------------------------------------------------------
// Executable encoder
// ---------------------------------------------------------------------------

/// Encode a value.
pub fn encode(v: &Value) -> (r: Vec<u8>)
    ensures
        r@ == spec_encode(v@),
{
    let mut out = Vec::new();
    enc(v, &mut out);
    assert(out@ =~= spec_encode(v@));
    out
}

fn enc(v: &Value, out: &mut Vec<u8>)
    ensures
        final(out)@ == old(out)@ + spec_encode(v@),
    decreases size(v@),
{
    match v {
        Value::Nil => {
            out.push(0xc0);
        },
        Value::Bool(b) => {
            out.push(if *b { 0xc3 } else { 0xc2 });
        },
        Value::Int(n) => {
            enc_int_into(*n, out);
        },
        Value::Str(s) => {
            enc_str_into(s, out);
        },
        Value::Arr(a) => {
            write_len(out, a.len(), 0x90, 0xdc);
            let ghost start = out@;
            proof {
                lemma_view_list(a@);
            }
            let mut i: usize = 0;
            while i < a.len()
                invariant
                    i <= a@.len(),
                    v@ == SpecValue::Arr(view_list(a@)),
                    out@ == start + enc_list(view_list(a@).take(i as int)),
                    view_list(a@).len() == a@.len(),
                    forall|j: int| 0 <= j < a@.len() ==> #[trigger] view_list(a@)[j] == view_value(a@[j]),
                decreases a.len() - i,
            {
                proof {
                    lemma_size_list_item(view_list(a@), i as int);
                    assert(size(a@[i as int]@) < size(v@));
                }
                enc(&a[i], out);
                proof {
                    let vl = view_list(a@);
                    assert(vl.take(i + 1) =~= vl.take(i as int).push(vl[i as int]));
                    lemma_enc_list_push(vl.take(i as int), vl[i as int]);
                }
                i = i + 1;
            }
            assert(view_list(a@).take(a@.len() as int) =~= view_list(a@));
        },
        Value::Mapping(p) => {
            write_len(out, p.len(), 0x80, 0xde);
            let ghost start = out@;
            proof {
                lemma_view_pairs(p@);
            }
            let mut i: usize = 0;
            while i < p.len()
                invariant
                    i <= p@.len(),
                    v@ == SpecValue::Mapping(view_pairs(p@)),
                    out@ == start + enc_pairs(view_pairs(p@).take(i as int)),
                    view_pairs(p@).len() == p@.len(),
                    forall|j: int|
                        0 <= j < p@.len() ==> #[trigger] view_pairs(p@)[j] == (
                            p@[j].0@,
                            view_value(p@[j].1),
                        ),
                decreases p.len() - i,
            {
                let (k, val) = &p[i];
                enc_str_into(k, out);
                proof {
                    lemma_size_pairs_item(view_pairs(p@), i as int);
                    assert(size(p@[i as int].1@) < size(v@));
                }
                enc(val, out);
                proof {
                    let vp = view_pairs(p@);
                    assert(vp.take(i + 1) =~= vp.take(i as int).push(vp[i as int]));
                    lemma_enc_pairs_push(vp.take(i as int), vp[i as int]);
                }
                i = i + 1;
            }
            assert(view_pairs(p@).take(p@.len() as int) =~= view_pairs(p@));
        },
    }
    assert(out@ =~= old(out)@ + spec_encode(v@));
}

fn write_len(out: &mut Vec<u8>, n: usize, fix_base: u8, ext16: u8)
    requires
        fix_base == 0x80 || fix_base == 0x90,
    ensures
        final(out)@ == old(out)@ + len_header(n as nat, fix_base, ext16),
{
    if n < 16 {
        out.push(fix_base + n as u8);
    } else {
        out.push(ext16);
        push_be(out, (n % 0x1_0000) as u64, 2);
    }
    assert(out@ =~= old(out)@ + len_header(n as nat, fix_base, ext16));
}

fn enc_str_into(s: &String, out: &mut Vec<u8>)
    ensures
        final(out)@ == old(out)@ + enc_str(s@),
{
    let b = s.as_str().as_bytes();
    let n = b.len();
    if n < 32 {
        out.push(0xa0 + n as u8);
    } else if n < 256 {
        out.push(0xd9);
        out.push(n as u8);
    } else {
        out.push(0xda);
        push_be(out, (n % 0x1_0000) as u64, 2);
    }
    let ghost mid = out@;
    out.extend_from_slice(b);
    assert(out@ =~= mid + b@);
    assert(out@ =~= old(out)@ + enc_str(s@));
}

fn enc_int_into(n: i64, out: &mut Vec<u8>)
    ensures
        final(out)@ == old(out)@ + enc_int(n),
{
    if 0 <= n && n <= 127 {
        out.push(n as u8);
    } else if -32 <= n && n < 0 {
        out.push((n + 256) as u8);
    } else if -128 <= n && n <= 127 {
        out.push(0xd0);
        out.push((n + 256) as u8);
    } else if -0x8000 <= n && n <= 0x7fff {
        out.push(0xd1);
        let u: u64 = if n < 0 {
            (n + 0x1_0000) as u64
        } else {
            n as u64
        };
        push_be(out, u, 2);
    } else if -0x8000_0000 <= n && n <= 0x7fff_ffff {
        out.push(0xd2);
        let u: u64 = if n < 0 {
            (n + 0x1_0000_0000) as u64
        } else {
            n as u64
        };
        push_be(out, u, 4);
    } else {
        out.push(0xd3);
        let u: u64 = if n < 0 {
            ((n + 1) + 0x7fff_ffff_ffff_ffff) as u64 + 0x8000_0000_0000_0000
        } else {
            n as u64
        };
        push_be(out, u, 8);
    }
    assert(out@ =~= old(out)@ + enc_int(n));
}


// ---------------------------------------------------------------------------
// The decoding
// ---------------------------------------------------------------------------

/// Why a byte string does not read as a value.
#[derive(Clone, Copy, Debug, PartialEq, Eq)]
pub enum MpError {
    /// A tag or a one-byte length was due past the end.
    UnexpectedEnd,
    /// A counted run of bytes runs past the end.
    LengthPastEnd,
    /// A map key that is not a string; the number is the key's kind.
    MapKeyNotString(u8),
    /// A tag outside the supported subset.
    UnsupportedTag(u8),
}

/// The text of a decoding error.
pub open spec fn mp_error_message(e: MpError) -> Seq<char> {
    match e {
        MpError::UnexpectedEnd => "unexpected end of MessagePack"@,
        MpError::LengthPastEnd => "MessagePack length past end"@,
        MpError::MapKeyNotString(k) => "map key must be a string, got "@ + kind_name(k),
        MpError::UnsupportedTag(t) => "unsupported MessagePack tag 0x"@ + hex2(t),
    }
}

/// What `String::from_utf8_lossy` makes of bytes that are not valid UTF-8
/// (each bad sequence becomes U+FFFD).
pub uninterp spec fn utf8_lossy(b: Seq<u8>) -> Seq<char>;

/// The characters a run of string bytes reads as.
pub open spec fn str_of_bytes(b: Seq<u8>) -> Seq<char> {
    if valid_utf8(b) {
        decode_utf8(b)
    } else {
        utf8_lossy(b)
    }
}

/// An integer read from `n` big-endian bytes at `p`, signed or not.
pub open spec fn dec_fixed(b: Seq<u8>, p: nat, n: nat, signed: bool) -> Result<(SpecValue, nat), MpError> {
    if p + n > b.len() {
        Err(MpError::LengthPastEnd)
    } else {
        let u = be_value(b.subrange(p as int, (p + n) as int));
        let x = if signed { signed_of(u, pow256(n)) } else if n == 8 { signed_of(u, pow256(8)) } else { u as int };
        Ok((SpecValue::Int(x as i64), p + n))
    }
}

/// A string of `n` bytes at `p`.
pub open spec fn dec_string(b: Seq<u8>, p: nat, n: nat) -> Result<(SpecValue, nat), MpError> {
    if p + n > b.len() {
        Err(MpError::LengthPastEnd)
    } else {
        Ok((SpecValue::Str(str_of_bytes(b.subrange(p as int, (p + n) as int))), p + n))
    }
}

/// The value that starts at `pos`, and where it ends.
pub open spec fn dec_value(b: Seq<u8>, pos: nat) -> Result<(SpecValue, nat), MpError>
    decreases b.len() - pos, 0int,
{
    if pos >= b.len() {
        Err(MpError::UnexpectedEnd)
    } else {
        let tag = b[pos as int];
        let p = pos + 1;
        if tag == 0xc0 {
            Ok((SpecValue::Nil, p))
        } else if tag == 0xc2 {
            Ok((SpecValue::Bool(false), p))
        } else if tag == 0xc3 {
            Ok((SpecValue::Bool(true), p))
        } else if tag <= 0x7f {
            Ok((SpecValue::Int(tag as i64), p))
        } else if tag >= 0xe0 {
            Ok((SpecValue::Int((tag - 256) as i64), p))
        } else if tag == 0xcc {
            if p >= b.len() {
                Err(MpError::UnexpectedEnd)
            } else {
                Ok((SpecValue::Int(b[p as int] as i64), p + 1))
            }
        } else if tag == 0xcd {
            dec_fixed(b, p, 2, false)
        } else if tag == 0xce {
            dec_fixed(b, p, 4, false)
        } else if tag == 0xcf {
            dec_fixed(b, p, 8, false)
        } else if tag == 0xd0 {
            if p >= b.len() {
                Err(MpError::UnexpectedEnd)
            } else {
                Ok((SpecValue::Int(signed_of(b[p as int] as nat, 256) as i64), p + 1))
            }
        } else if tag == 0xd1 {
            dec_fixed(b, p, 2, true)
        } else if tag == 0xd2 {
            dec_fixed(b, p, 4, true)
        } else if tag == 0xd3 {
            dec_fixed(b, p, 8, true)
        } else if 0xa0 <= tag <= 0xbf {
            dec_string(b, p, (tag - 0xa0) as nat)
        } else if tag == 0xd9 {
            if p >= b.len() {
                Err(MpError::UnexpectedEnd)
            } else {
                dec_string(b, p + 1, b[p as int] as nat)
            }
        } else if tag == 0xda {
            if p + 2 > b.len() {
                Err(MpError::LengthPastEnd)
            } else {
                dec_string(b, p + 2, be_value(b.subrange(p as int, (p + 2) as int)))
            }
        } else if 0x90 <= tag <= 0x9f {
            match dec_items(b, p, (tag - 0x90) as nat) {
                Ok((vs, q)) => Ok((SpecValue::Arr(vs), q)),
                Err(e) => Err(e),
            }
        } else if tag == 0xdc {
            if p + 2 > b.len() {
                Err(MpError::LengthPastEnd)
            } else {
                match dec_items(b, p + 2, be_value(b.subrange(p as int, (p + 2) as int))) {
                    Ok((vs, q)) => Ok((SpecValue::Arr(vs), q)),
                    Err(e) => Err(e),
                }
            }
        } else if 0x80 <= tag <= 0x8f {
            match dec_pairs(b, p, (tag - 0x80) as nat) {
                Ok((ps, q)) => Ok((SpecValue::Mapping(ps), q)),
                Err(e) => Err(e),
            }
        } else if tag == 0xde {
            if p + 2 > b.len() {
                Err(MpError::LengthPastEnd)
            } else {
                match dec_pairs(b, p + 2, be_value(b.subrange(p as int, (p + 2) as int))) {
                    Ok((ps, q)) => Ok((SpecValue::Mapping(ps), q)),
                    Err(e) => Err(e),
                }
            }
        } else {
            Err(MpError::UnsupportedTag(tag))
        }
    }
}

/// `n` values one after another from `pos`.
pub open spec fn dec_items(b: Seq<u8>, pos: nat, n: nat) -> Result<(Seq<SpecValue>, nat), MpError>
    decreases b.len() - pos, 1int,
{
    if n == 0 {
        Ok((Seq::empty(), pos))
    } else {
        match dec_value(b, pos) {
            Err(e) => Err(e),
            Ok((v, q)) => if pos < q <= b.len() {
                match dec_items(b, q, (n - 1) as nat) {
                    Err(e) => Err(e),
                    Ok((vs, r)) => Ok((seq![v] + vs, r)),
                }
            } else {
                Err(MpError::UnexpectedEnd)
            },
        }
    }
}

/// `n` key/value entries one after another from `pos`; keys must be strings.
pub open spec fn dec_pairs(b: Seq<u8>, pos: nat, n: nat) -> Result<(Seq<(Seq<char>, SpecValue)>, nat), MpError>
    decreases b.len() - pos, 1int,
{
    if n == 0 {
        Ok((Seq::empty(), pos))
    } else {
        match dec_value(b, pos) {
            Err(e) => Err(e),
            Ok((k, q)) => if pos < q <= b.len() {
                match k {
                    SpecValue::Str(ks) => match dec_value(b, q) {
                        Err(e) => Err(e),
                        Ok((v, r)) => if q < r <= b.len() {
                            match dec_pairs(b, r, (n - 1) as nat) {
                                Err(e) => Err(e),
                                Ok((ps, t)) => Ok((seq![(ks, v)] + ps, t)),
                            }
                        } else {
                            Err(MpError::UnexpectedEnd)
                        },
                    },
                    other => Err(MpError::MapKeyNotString(kind_code(other))),
                }
            } else {
                Err(MpError::UnexpectedEnd)
            },
        }
    }
}

/// What a byte string reads as: the first value in it (bytes after it are
/// ignored).
pub open spec fn spec_decode(b: Seq<u8>) -> Result<SpecValue, MpError> {
    match dec_value(b, 0) {
        Ok((v, _)) => Ok(v),
        Err(e) => Err(e),
    }
}


/// `String::from_utf8_lossy(b).into_owned()`: valid UTF-8 reads as the
/// characters it encodes; other input is named, not described.
#[verifier::external_body]
pub(crate) fn lossy_string(b: &[u8]) -> (r: String)
    ensures
        valid_utf8(b@) ==> r@ == decode_utf8(b@),
        !valid_utf8(b@) ==> r@ == utf8_lossy(b@),
{
    String::from_utf8_lossy(b).into_owned()
}

/// Puts `pre` in front of the items of a list result.
pub open spec fn prepend<T>(pre: Seq<T>, r: Result<(Seq<T>, nat), MpError>) -> Result<(Seq<T>, nat), MpError> {
    match r {
        Ok((vs, q)) => Ok((pre + vs, q)),
        Err(e) => Err(e),
    }
}

/// A cursor over the input: the decoding functions take the bytes and a
/// position, and give the new position with what they read.
pub type Read<T> = Result<(T, usize), MpError>;

fn take_u8(b: &[u8], pos: usize) -> (r: Read<u8>)
    requires
        pos <= b@.len(),
    ensures
        match r {
            Ok((x, q)) => pos < b@.len() && x == b@[pos as int] && q == pos + 1,
            Err(e) => pos >= b@.len() && e == MpError::UnexpectedEnd,
        },
{
    if pos < b.len() {
        Ok((b[pos], pos + 1))
    } else {
        Err(MpError::UnexpectedEnd)
    }
}

/// Claims the next `n` bytes; gives where they end.
fn take(b: &[u8], pos: usize, n: usize) -> (r: Result<usize, MpError>)
    requires
        pos <= b@.len(),
    ensures
        match r {
            Ok(end) => pos + n <= b@.len() && end == pos + n,
            Err(e) => pos + n > b@.len() && e == MpError::LengthPastEnd,
        },
{
    let len = b.len();
    match pos.checked_add(n) {
        Some(end) => {
            if end <= len {
                Ok(end)
            } else {
                Err(MpError::LengthPastEnd)
            }
        },
        None => Err(MpError::LengthPastEnd),
    }
}

fn take_u16(b: &[u8], pos: usize) -> (r: Read<usize>)
    requires
        pos <= b@.len(),
    ensures
        match r {
            Ok((n, q)) => pos + 2 <= b@.len() && q == pos + 2
                && n as nat == be_value(b@.subrange(pos as int, pos + 2)),
            Err(e) => pos + 2 > b@.len() && e == MpError::LengthPastEnd,
        },
{
    match take(b, pos, 2) {
        Ok(end) => {
            let v = read_be(b, pos, 2);
            proof {
                lemma_pow256_values();
                lemma_be_value_bound(b@.subrange(pos as int, pos + 2));
            }
            Ok((v as usize, end))
        },
        Err(e) => Err(e),
    }
}

/// The next `n` bytes as a big-endian number.
fn take_be(b: &[u8], pos: usize, n: usize) -> (r: Read<u64>)
    requires
        pos <= b@.len(),
        n <= 8,
    ensures
        match r {
            Ok((x, q)) => pos + n <= b@.len() && q == pos + n
                && x as nat == be_value(b@.subrange(pos as int, pos + n)),
            Err(e) => pos + n > b@.len() && e == MpError::LengthPastEnd,
        },
{
    match take(b, pos, n) {
        Ok(end) => Ok((read_be(b, pos, n), end)),
        Err(e) => Err(e),
    }
}

/// The relation between an executable read and its specification.
pub open spec fn read_matches(r: Read<Value>, s: Result<(SpecValue, nat), MpError>) -> bool {
    match r {
        Ok((v, q)) => s == Ok::<(SpecValue, nat), MpError>((v@, q as nat)),
        Err(e) => s == Err::<(SpecValue, nat), MpError>(e),
    }
}

fn string(b: &[u8], pos: usize, n: usize) -> (r: Read<Value>)
    requires
        pos <= b@.len(),
    ensures
        read_matches(r, dec_string(b@, pos as nat, n as nat)),
{
    match take(b, pos, n) {
        Ok(end) => {
            let s = lossy_string(&b[pos..end]);
            Ok((Value::Str(s), end))
        },
        Err(e) => Err(e),
    }
}

fn array(b: &[u8], pos: usize, n: usize) -> (r: Read<Value>)
    requires
        pos <= b@.len(),
    ensures
        match r {
            Ok((v, q)) => dec_items(b@, pos as nat, n as nat) matches Ok((vs, t)) && v@ == SpecValue::Arr(vs)
                && t == q,
            Err(e) => dec_items(b@, pos as nat, n as nat) == Err::<(Seq<SpecValue>, nat), MpError>(e),
        },
    decreases b@.len() - pos, 1int,
{
    let mut a: Vec<Value> = Vec::new();
    let mut i: usize = 0;
    let mut cur = pos;
    while i < n
        invariant
            pos <= cur <= b@.len(),
            i <= n,
            a@.len() == i,
            dec_items(b@, pos as nat, n as nat) == prepend(view_list(a@), dec_items(b@, cur as nat, (n - i) as nat)),
        decreases n - i,
    {
        match value(b, cur) {
            Ok((v, q)) => {
                proof {
                    lemma_dec_value_advances(b@, cur as nat);
                    let rest = dec_items(b@, q as nat, (n - i - 1) as nat);
                    assert(dec_items(b@, cur as nat, (n - i) as nat) == prepend(seq![v@], rest));
                    assert(a@.push(v).drop_last() =~= a@);
                    assert(view_list(a@.push(v)) == view_list(a@).push(v@));
                    match rest {
                        Ok((vs, t)) => {
                            assert(view_list(a@) + (seq![v@] + vs) =~= view_list(a@).push(v@) + vs);
                        },
                        Err(_) => {},
                    }
                }
                a.push(v);
                cur = q;
                i = i + 1;
            },
            Err(e) => {
                return Err(e);
            },
        }
    }
    proof {
        assert(view_list(a@) + Seq::<SpecValue>::empty() =~= view_list(a@));
    }
    Ok((Value::Arr(a), cur))
}

fn map(b: &[u8], pos: usize, n: usize) -> (r: Read<Value>)
    requires
        pos <= b@.len(),
    ensures
        match r {
            Ok((v, q)) => dec_pairs(b@, pos as nat, n as nat) matches Ok((ps, t)) && v@ == SpecValue::Mapping(ps)
                && t == q,
            Err(e) => dec_pairs(b@, pos as nat, n as nat) == Err::<(Seq<(Seq<char>, SpecValue)>, nat), MpError>(e),
        },
    decreases b@.len() - pos, 1int,
{
    let mut p: Vec<(String, Value)> = Vec::new();
    let mut i: usize = 0;
    let mut cur = pos;
    while i < n
        invariant
            pos <= cur <= b@.len(),
            i <= n,
            p@.len() == i,
            dec_pairs(b@, pos as nat, n as nat) == prepend(view_pairs(p@), dec_pairs(b@, cur as nat, (n - i) as nat)),
        decreases n - i,
    {
        proof {
            lemma_dec_value_advances(b@, cur as nat);
        }
        let (k, mid) = match value(b, cur) {
            Ok((Value::Str(s), q)) => (s, q),
            Ok((other, _)) => {
                return Err(MpError::MapKeyNotString(other.kind_code()));
            },
            Err(e) => {
                return Err(e);
            },
        };
        match value(b, mid) {
            Ok((v, q)) => {
                proof {
                    lemma_dec_value_advances(b@, mid as nat);
                    let rest = dec_pairs(b@, q as nat, (n - i - 1) as nat);
                    assert(dec_pairs(b@, cur as nat, (n - i) as nat) == prepend(seq![(k@, v@)], rest));
                    assert(p@.push((k, v)).drop_last() =~= p@);
                    assert(view_pairs(p@.push((k, v))) == view_pairs(p@).push((k@, v@)));
                    match rest {
                        Ok((ps, t)) => {
                            assert(view_pairs(p@) + (seq![(k@, v@)] + ps) =~= view_pairs(p@).push((k@, v@)) + ps);
                        },
                        Err(_) => {},
                    }
                }
                p.push((k, v));
                cur = q;
                i = i + 1;
            },
            Err(e) => {
                return Err(e);
            },
        }
    }
    proof {
        assert(view_pairs(p@) + Seq::<(Seq<char>, SpecValue)>::empty() =~= view_pairs(p@));
    }
    Ok((Value::Mapping(p), cur))
}

fn value(b: &[u8], pos: usize) -> (r: Read<Value>)
    requires
        pos <= b@.len(),
    ensures
        read_matches(r, dec_value(b@, pos as nat)),
    decreases b@.len() - pos, 0int,
{
    proof {
        lemma_pow256_values();
    }
    let (tag, p) = match take_u8(b, pos) {
        Ok(t) => t,
        Err(e) => return Err(e),
    };
    if tag == 0xc0 {
        Ok((Value::Nil, p))
    } else if tag == 0xc2 {
        Ok((Value::Bool(false), p))
    } else if tag == 0xc3 {
        Ok((Value::Bool(true), p))
    } else if tag <= 0x7f {
        Ok((Value::Int(tag as i64), p))
    } else if tag >= 0xe0 {
        Ok((Value::Int(tag as i64 - 256), p))
    } else if tag == 0xcc {
        match take_u8(b, p) {
            Ok((x, q)) => Ok((Value::Int(x as i64), q)),
            Err(e) => Err(e),
        }
    } else if tag == 0xcd || tag == 0xce || tag == 0xcf {
        let n: usize = if tag == 0xcd { 2 } else if tag == 0xce { 4 } else { 8 };
        match take_be(b, p, n) {
            Ok((u, q)) => {
                proof {
                    lemma_be_value_bound(b@.subrange(p as int, p + n));
                }
                let x: i64 = if u >= 0x8000_0000_0000_0000 {
                    (u - 0x8000_0000_0000_0000) as i64 + i64::MIN
                } else {
                    u as i64
                };
                Ok((Value::Int(x), q))
            },
            Err(e) => Err(e),
        }
    } else if tag == 0xd0 {
        match take_u8(b, p) {
            Ok((x, q)) => Ok((Value::Int(if x >= 128 { x as i64 - 256 } else { x as i64 }), q)),
            Err(e) => Err(e),
        }
    } else if tag == 0xd1 || tag == 0xd2 || tag == 0xd3 {
        let n: usize = if tag == 0xd1 { 2 } else if tag == 0xd2 { 4 } else { 8 };
        match take_be(b, p, n) {
            Ok((u, q)) => {
                proof {
                    lemma_be_value_bound(b@.subrange(p as int, p + n));
                }
                let x: i64 = if n == 2 {
                    if u >= 0x8000 { u as i64 - 0x1_0000 } else { u as i64 }
                } else if n == 4 {
                    if u >= 0x8000_0000 { u as i64 - 0x1_0000_0000 } else { u as i64 }
                } else {
                    if u >= 0x8000_0000_0000_0000 {
                        (u - 0x8000_0000_0000_0000) as i64 + i64::MIN
                    } else {
                        u as i64
                    }
                };
                Ok((Value::Int(x), q))
            },
            Err(e) => Err(e),
        }
    } else if 0xa0 <= tag && tag <= 0xbf {
        string(b, p, (tag - 0xa0) as usize)
    } else if tag == 0xd9 {
        match take_u8(b, p) {
            Ok((n, q)) => string(b, q, n as usize),
            Err(e) => Err(e),
        }
    } else if tag == 0xda {
        match take_u16(b, p) {
            Ok((n, q)) => string(b, q, n),
            Err(e) => Err(e),
        }
    } else if 0x90 <= tag && tag <= 0x9f {
        array(b, p, (tag - 0x90) as usize)
    } else if tag == 0xdc {
        match take_u16(b, p) {
            Ok((n, q)) => array(b, q, n),
            Err(e) => Err(e),
        }
    } else if 0x80 <= tag && tag <= 0x8f {
        map(b, p, (tag - 0x80) as usize)
    } else if tag == 0xde {
        match take_u16(b, p) {
            Ok((n, q)) => map(b, q, n),
            Err(e) => Err(e),
        }
    } else {
        Err(MpError::UnsupportedTag(tag))
    }
}

/// A decoded value ends past where it starts and within the input; a list
/// ends no earlier than it starts and has the items asked for.
pub proof fn lemma_dec_value_advances(b: Seq<u8>, pos: nat)
    ensures
        dec_value(b, pos) matches Ok((_, q)) ==> pos < q <= b.len(),
    decreases b.len() - pos, 0int,
{
    reveal_with_fuel(dec_value, 1);
    if pos < b.len() {
        let tag = b[pos as int];
        let p = pos + 1;
        if 0x90 <= tag <= 0x9f {
            lemma_dec_items_advances(b, p, (tag - 0x90) as nat);
        } else if tag == 0xdc && p + 2 <= b.len() {
            lemma_dec_items_advances(b, p + 2, be_value(b.subrange(p as int, (p + 2) as int)));
        } else if 0x80 <= tag <= 0x8f {
            lemma_dec_pairs_advances(b, p, (tag - 0x80) as nat);
        } else if tag == 0xde && p + 2 <= b.len() {
            lemma_dec_pairs_advances(b, p + 2, be_value(b.subrange(p as int, (p + 2) as int)));
        }
    }
}

pub proof fn lemma_dec_items_advances(b: Seq<u8>, pos: nat, n: nat)
    ensures
        dec_items(b, pos, n) matches Ok((vs, q)) ==> pos <= q && (pos <= b.len() ==> q <= b.len()) && vs.len() == n,
    decreases b.len() - pos, 1int,
{
    if n > 0 {
        if let Ok((v, q)) = dec_value(b, pos) {
            if pos < q <= b.len() {
                lemma_dec_items_advances(b, q, (n - 1) as nat);
            }
        }
    }
}

pub proof fn lemma_dec_pairs_advances(b: Seq<u8>, pos: nat, n: nat)
    ensures
        dec_pairs(b, pos, n) matches Ok((ps, q)) ==> pos <= q && (pos <= b.len() ==> q <= b.len()) && ps.len() == n,
    decreases b.len() - pos, 1int,
{
    if n > 0 {
        if let Ok((k, q)) = dec_value(b, pos) {
            if pos < q <= b.len() {
                if let Ok((v, r)) = dec_value(b, q) {
                    if q < r <= b.len() {
                        lemma_dec_pairs_advances(b, r, (n - 1) as nat);
                    }
                }
            }
        }
    }
}

/// Decodes the first value of `bytes`, reporting why it fails as an error.
pub fn decode_value(bytes: &[u8]) -> (r: Result<Value, MpError>)
    ensures
        match spec_decode(bytes@) {
            Ok(sv) => r matches Ok(v) && v@ == sv,
            Err(e) => r == Err::<Value, MpError>(e),
        },
{
    match value(bytes, 0) {
        Ok((v, _)) => Ok(v),
        Err(e) => Err(e),
    }
}

/// The text of a decoding error.
pub fn mp_error_text(e: MpError) -> (r: String)
    ensures
        r@ == mp_error_message(e),
{
    match e {
        MpError::UnexpectedEnd => string_of("unexpected end of MessagePack"),
        MpError::LengthPastEnd => string_of("MessagePack length past end"),
        MpError::MapKeyNotString(k) => {
            let mut s = string_of("map key must be a string, got ");
            s.append(kind_str(k));
            s
        },
        MpError::UnsupportedTag(t) => {
            let mut s = string_of("unsupported MessagePack tag 0x");
            push_hex2(&mut s, t);
            s
        },
    }
}

/// Decode the first value of `bytes`.
pub fn decode(bytes: &[u8]) -> (r: Result<Value, String>)
    ensures
        match spec_decode(bytes@) {
            Ok(sv) => r matches Ok(v) && v@ == sv,
            Err(e) => r matches Err(m) && m@ == mp_error_message(e),
        },
{
    match decode_value(bytes) {
        Ok(v) => Ok(v),
        Err(e) => Err(mp_error_text(e)),
    }
}


// ---------------------------------------------------------------------------
// Reading back what was written
// ---------------------------------------------------------------------------

proof fn lemma_split(b: Seq<u8>, p: int, x: Seq<u8>, y: Seq<u8>)
    requires
        0 <= p,
        p + x.len() + y.len() <= b.len(),
        b.subrange(p, p + x.len() + y.len()) == x + y,
    ensures
        b.subrange(p, p + x.len()) == x,
        b.subrange(p + x.len(), p + x.len() + y.len()) == y,
{
    assert(b.subrange(p, p + x.len()) =~= (x + y).subrange(0, x.len() as int));
    assert((x + y).subrange(0, x.len() as int) =~= x);
    assert(b.subrange(p + x.len(), p + x.len() + y.len()) =~= (x + y).subrange(
        x.len() as int,
        (x.len() + y.len()) as int,
    ));
    assert((x + y).subrange(x.len() as int, (x.len() + y.len()) as int) =~= y);
}

proof fn lemma_encode_nonempty(v: SpecValue)
    ensures
        spec_encode(v).len() >= 1,
{
    match v {
        SpecValue::Arr(a) => {},
        SpecValue::Mapping(p) => {},
        _ => {},
    }
}

proof fn lemma_rt_fixed(b: Seq<u8>, p: nat, u: nat, n: nat)
    requires
        u < pow256(n),
        p + n <= b.len(),
        b.subrange(p as int, (p + n) as int) == be_bytes(u, n),
    ensures
        be_value(b.subrange(p as int, (p + n) as int)) == u,
{
    lemma_be_roundtrip(u, n);
}

proof fn lemma_rt_int(b: Seq<u8>, pos: nat, n: i64)
    requires
        pos + enc_int(n).len() <= b.len(),
        b.subrange(pos as int, (pos + enc_int(n).len()) as int) == enc_int(n),
    ensures
        dec_value(b, pos) == Ok::<(SpecValue, nat), MpError>((SpecValue::Int(n), pos + enc_int(n).len())),
{
    lemma_pow256_values();
    let e = enc_int(n);
    assert(b[pos as int] == e[0]) by {
        assert(b.subrange(pos as int, (pos + e.len()) as int)[0] == e[0]);
    }
    let p = pos + 1;
    if 0 <= n <= 127 {
    } else if -32 <= n < 0 {
    } else if -128 <= n <= 127 {
        assert(b[p as int] == e[1]) by {
            assert(b.subrange(pos as int, (pos + e.len()) as int)[1] == e[1]);
        }
    } else if -0x8000 <= n <= 0x7fff {
        let t = twos(n as int, 0x1_0000);
        lemma_be_bytes_len(t, 2);
        lemma_split(b, pos as int, seq![0xd1u8], be_bytes(t, 2));
        lemma_rt_fixed(b, p, t, 2);
    } else if -0x8000_0000 <= n <= 0x7fff_ffff {
        let t = twos(n as int, 0x1_0000_0000);
        lemma_be_bytes_len(t, 4);
        lemma_split(b, pos as int, seq![0xd2u8], be_bytes(t, 4));
        lemma_rt_fixed(b, p, t, 4);
    } else {
        let t = twos(n as int, 0x1_0000_0000_0000_0000);
        lemma_be_bytes_len(t, 8);
        lemma_split(b, pos as int, seq![0xd3u8], be_bytes(t, 8));
        lemma_rt_fixed(b, p, t, 8);
    }
}

proof fn lemma_rt_str(b: Seq<u8>, pos: nat, s: Seq<char>)
    requires
        encode_utf8(s).len() < 0x1_0000,
        pos + enc_str(s).len() <= b.len(),
        b.subrange(pos as int, (pos + enc_str(s).len()) as int) == enc_str(s),
    ensures
        dec_value(b, pos) == Ok::<(SpecValue, nat), MpError>((SpecValue::Str(s), pos + enc_str(s).len())),
{
    broadcast use encode_utf8_valid_utf8, encode_utf8_decode_utf8;

    lemma_pow256_values();
    let u = encode_utf8(s);
    let n = u.len();
    let e = enc_str(s);
    assert(b[pos as int] == e[0]) by {
        assert(b.subrange(pos as int, (pos + e.len()) as int)[0] == e[0]);
    }
    if n < 32 {
        lemma_split(b, pos as int, seq![(0xa0 + n) as u8], u);
    } else if n < 256 {
        lemma_split(b, pos as int, seq![0xd9u8, n as u8], u);
        assert(b[(pos + 1) as int] == e[1]) by {
            assert(b.subrange(pos as int, (pos + e.len()) as int)[1] == e[1]);
        }
    } else {
        let h = seq![0xdau8] + be_bytes(n % 0x1_0000, 2);
        lemma_be_bytes_len(n % 0x1_0000, 2);
        assert(e == h + u);
        lemma_split(b, pos as int, h, u);
        lemma_split(b, pos as int, seq![0xdau8], be_bytes(n % 0x1_0000, 2));
        lemma_rt_fixed(b, pos + 1, n, 2);
    }
}

proof fn lemma_rt_header(b: Seq<u8>, pos: nat, n: nat, fix_base: u8, ext16: u8)
    requires
        n < 0x1_0000,
        fix_base == 0x80 || fix_base == 0x90,
        pos + len_header(n, fix_base, ext16).len() <= b.len(),
        b.subrange(pos as int, (pos + len_header(n, fix_base, ext16).len()) as int) == len_header(n, fix_base, ext16),
    ensures
        b[pos as int] == len_header(n, fix_base, ext16)[0],
        n >= 16 ==> be_value(b.subrange((pos + 1) as int, (pos + 3) as int)) == n && len_header(n, fix_base, ext16).len() == 3,
        n < 16 ==> len_header(n, fix_base, ext16).len() == 1,
{
    lemma_pow256_values();
    let h = len_header(n, fix_base, ext16);
    assert(b.subrange(pos as int, (pos + h.len()) as int)[0] == h[0]);
    if n >= 16 {
        lemma_be_bytes_len(n % 0x1_0000, 2);
        lemma_split(b, pos as int, seq![ext16], be_bytes(n % 0x1_0000, 2));
        lemma_rt_fixed(b, pos + 1, n, 2);
    }
}

proof fn lemma_rt_value(b: Seq<u8>, pos: nat, v: SpecValue)
    requires
        encodable(v),
        pos + spec_encode(v).len() <= b.len(),
        b.subrange(pos as int, (pos + spec_encode(v).len()) as int) == spec_encode(v),
    ensures
        dec_value(b, pos) == Ok::<(SpecValue, nat), MpError>((v, pos + spec_encode(v).len())),
    decreases size(v),
{
    let e = spec_encode(v);
    match v {
        SpecValue::Nil => {
            assert(b.subrange(pos as int, (pos + e.len()) as int)[0] == e[0]);
        },
        SpecValue::Bool(x) => {
            assert(b.subrange(pos as int, (pos + e.len()) as int)[0] == e[0]);
        },
        SpecValue::Int(n) => {
            lemma_rt_int(b, pos, n);
        },
        SpecValue::Str(s) => {
            lemma_rt_str(b, pos, s);
        },
        SpecValue::Arr(a) => {
            let h = len_header(a.len(), 0x90, 0xdc);
            let body = enc_list(a);
            lemma_split(b, pos as int, h, body);
            lemma_rt_header(b, pos, a.len(), 0x90, 0xdc);
            lemma_rt_list(b, pos + h.len(), a);
        },
        SpecValue::Mapping(p) => {
            let h = len_header(p.len(), 0x80, 0xde);
            let body = enc_pairs(p);
            lemma_split(b, pos as int, h, body);
            lemma_rt_header(b, pos, p.len(), 0x80, 0xde);
            lemma_rt_pairs(b, pos + h.len(), p);
        },
    }
}

proof fn lemma_rt_list(b: Seq<u8>, pos: nat, s: Seq<SpecValue>)
    requires
        encodable_list(s),
        pos + enc_list(s).len() <= b.len(),
        b.subrange(pos as int, (pos + enc_list(s).len()) as int) == enc_list(s),
    ensures
        dec_items(b, pos, s.len()) == Ok::<(Seq<SpecValue>, nat), MpError>((s, pos + enc_list(s).len())),
    decreases size_list(s),
{
    if s.len() > 0 {
        let x = spec_encode(s[0]);
        let y = enc_list(s.drop_first());
        lemma_split(b, pos as int, x, y);
        lemma_encode_nonempty(s[0]);
        lemma_rt_value(b, pos, s[0]);
        lemma_rt_list(b, pos + x.len(), s.drop_first());
        assert(seq![s[0]] + s.drop_first() =~= s);
    }
}

proof fn lemma_rt_pairs(b: Seq<u8>, pos: nat, s: Seq<(Seq<char>, SpecValue)>)
    requires
        encodable_pairs(s),
        pos + enc_pairs(s).len() <= b.len(),
        b.subrange(pos as int, (pos + enc_pairs(s).len()) as int) == enc_pairs(s),
    ensures
        dec_pairs(b, pos, s.len()) == Ok::<(Seq<(Seq<char>, SpecValue)>, nat), MpError>((s, pos + enc_pairs(s).len())),
    decreases size_pairs(s),
{
    if s.len() > 0 {
        let k = enc_str(s[0].0);
        let x = spec_encode(s[0].1);
        let y = enc_pairs(s.drop_first());
        assert(enc_pairs(s) == k + (x + y));
        lemma_split(b, pos as int, k, x + y);
        lemma_split(b, (pos + k.len()) as int, x, y);
        lemma_rt_str(b, pos, s[0].0);
        lemma_encode_nonempty(SpecValue::Str(s[0].0));
        lemma_encode_nonempty(s[0].1);
        lemma_rt_value(b, pos + k.len(), s[0].1);
        lemma_rt_pairs(b, pos + k.len() + x.len(), s.drop_first());
        assert(seq![(s[0].0, s[0].1)] + s.drop_first() =~= s);
    }
}

/// Reading back what was written gives the value again, whatever bytes
/// follow it, for every value whose strings and collections fit the
/// encoding's 16-bit lengths.
pub proof fn law_decode_encode(v: SpecValue, rest: Seq<u8>)
    requires
        encodable(v),
    ensures
        spec_decode(spec_encode(v) + rest) == Ok::<SpecValue, MpError>(v),
{
    let b = spec_encode(v) + rest;
    assert(b.subrange(0, spec_encode(v).len() as int) =~= spec_encode(v));
    lemma_rt_value(b, 0, v);
}

// ---------------------------------------------------------------------------
// Reading never looks past what it reads
// ---------------------------------------------------------------------------

proof fn lemma_prefix_bytes(b: Seq<u8>, k: nat, i: nat, j: nat)
    requires
        k <= b.len(),
        0 <= i <= j <= k,
    ensures
        b.take(k as int).subrange(i as int, j as int) == b.subrange(i as int, j as int),
{
    assert(b.take(k as int).subrange(i as int, j as int) =~= b.subrange(i as int, j as int));
}

/// A value read from the first `k` bytes of `b` reads the same from all of
/// `b`: the reader only depends on the bytes before where the value ends.
proof fn lemma_prefix_value(b: Seq<u8>, k: nat, pos: nat)
    requires
        k <= b.len(),
    ensures
        dec_value(b.take(k as int), pos) matches Ok((x, q)) ==> dec_value(b, pos) == Ok::<(SpecValue, nat), MpError>((x, q)),
    decreases k - pos, 0int,
{
    let t = b.take(k as int);
    if pos < k {
        let tag = b[pos as int];
        assert(t[pos as int] == tag);
        let p = pos + 1;
        if p < k {
            assert(t[p as int] == b[p as int]);
        }
        if tag == 0xcd || tag == 0xd1 {
            if p + 2 <= k { lemma_prefix_bytes(b, k, p, p + 2); }
        } else if tag == 0xce || tag == 0xd2 {
            if p + 4 <= k { lemma_prefix_bytes(b, k, p, p + 4); }
        } else if tag == 0xcf || tag == 0xd3 {
            if p + 8 <= k { lemma_prefix_bytes(b, k, p, p + 8); }
        } else if 0xa0 <= tag <= 0xbf {
            let n = (tag - 0xa0) as nat;
            if p + n <= k { lemma_prefix_bytes(b, k, p, p + n); }
        } else if tag == 0xd9 {
            if p < k {
                let n = b[p as int] as nat;
                if p + 1 + n <= k { lemma_prefix_bytes(b, k, p + 1, p + 1 + n); }
            }
        } else if tag == 0xda {
            if p + 2 <= k {
                lemma_prefix_bytes(b, k, p, p + 2);
                let n = be_value(b.subrange(p as int, (p + 2) as int));
                if p + 2 + n <= k { lemma_prefix_bytes(b, k, p + 2, p + 2 + n); }
            }
        } else if 0x90 <= tag <= 0x9f {
            lemma_prefix_items(b, k, p, (tag - 0x90) as nat);
        } else if tag == 0xdc {
            if p + 2 <= k {
                lemma_prefix_bytes(b, k, p, p + 2);
                lemma_prefix_items(b, k, p + 2, be_value(b.subrange(p as int, (p + 2) as int)));
            }
        } else if 0x80 <= tag <= 0x8f {
            lemma_prefix_pairs(b, k, p, (tag - 0x80) as nat);
        } else if tag == 0xde {
            if p + 2 <= k {
                lemma_prefix_bytes(b, k, p, p + 2);
                lemma_prefix_pairs(b, k, p + 2, be_value(b.subrange(p as int, (p + 2) as int)));
            }
        }
    }
}

proof fn lemma_prefix_items(b: Seq<u8>, k: nat, pos: nat, n: nat)
    requires
        k <= b.len(),
        pos <= k,
    ensures
        dec_items(b.take(k as int), pos, n) matches Ok((x, q)) ==> dec_items(b, pos, n) == Ok::<(Seq<SpecValue>, nat), MpError>((x, q)),
    decreases k - pos, 1int,
{
    let t = b.take(k as int);
    if n > 0 {
        lemma_prefix_value(b, k, pos);
        if let Ok((v, q)) = dec_value(t, pos) {
            if pos < q <= k {
                lemma_prefix_items(b, k, q, (n - 1) as nat);
            }
        }
    }
}

proof fn lemma_prefix_pairs(b: Seq<u8>, k: nat, pos: nat, n: nat)
    requires
        k <= b.len(),
        pos <= k,
    ensures
        dec_pairs(b.take(k as int), pos, n) matches Ok((x, q)) ==> dec_pairs(b, pos, n) == Ok::<(Seq<(Seq<char>, SpecValue)>, nat), MpError>((x, q)),
    decreases k - pos, 1int,
{
    let t = b.take(k as int);
    if n > 0 {
        lemma_prefix_value(b, k, pos);
        if let Ok((kv, q)) = dec_value(t, pos) {
            if pos < q <= k {
                lemma_prefix_value(b, k, q);
                if let Ok((v, r)) = dec_value(t, q) {
                    if q < r <= k {
                        lemma_prefix_pairs(b, k, r, (n - 1) as nat);
                    }
                }
            }
        }
    }
}

/// No strict prefix of an encoding decodes: reading cut-off bytes is an
/// error, for every value whose strings and collections fit the encoding's
/// 16-bit lengths.
pub proof fn law_prefix_does_not_decode(v: SpecValue, k: nat)
    requires
        encodable(v),
        k < spec_encode(v).len(),
    ensures
        spec_decode(spec_encode(v).take(k as int)) is Err,
{
    let e = spec_encode(v);
    assert(e.subrange(0, e.len() as int) =~= e);
    lemma_rt_value(e, 0, v);
    lemma_dec_value_advances(e.take(k as int), 0);
    lemma_prefix_value(e, k, 0);
}

/// The integer forms read as their numbers, whatever follows them: a
/// positive fixint is its own value, a negative fixint its value minus
/// 256; `0xcc`, `0xcd` and `0xce` carry an unsigned 8-, 16- or 32-bit
/// big-endian number, never negative; `0xd0` a two's-complement byte.
pub proof fn law_integer_forms(b: Seq<u8>)
    ensures
        b.len() >= 1 && b[0] <= 0x7f ==> spec_decode(b) == Ok::<SpecValue, MpError>(SpecValue::Int(b[0] as i64)),
        b.len() >= 1 && b[0] >= 0xe0 ==> spec_decode(b) == Ok::<SpecValue, MpError>(SpecValue::Int((b[0] as int - 256) as i64)),
        b.len() >= 2 && b[0] == 0xcc ==> spec_decode(b) == Ok::<SpecValue, MpError>(SpecValue::Int(b[1] as i64))
            && 0 <= b[1] as i64 <= 255,
        b.len() >= 2 && b[0] == 0xd0 ==> spec_decode(b) == Ok::<SpecValue, MpError>(
            SpecValue::Int((if b[1] >= 128 { b[1] as int - 256 } else { b[1] as int }) as i64)),
        b.len() >= 3 && b[0] == 0xcd ==> spec_decode(b) == Ok::<SpecValue, MpError>(
            SpecValue::Int((b[1] as int * 0x100 + b[2] as int) as i64)),
        b.len() >= 5 && b[0] == 0xce ==> spec_decode(b) == Ok::<SpecValue, MpError>(
            SpecValue::Int((b[1] as int * 0x100_0000 + b[2] as int * 0x1_0000 + b[3] as int * 0x100 + b[4] as int) as i64)),
{
    lemma_pow256_values();
    if b.len() >= 3 && b[0] == 0xcd {
        let s = b.subrange(1, 3);
        assert(be_value(s) == s[0] as int * 0x100 + s[1] as int) by {
            reveal_with_fuel(be_value, 3);
            assert(s.drop_last().drop_last() =~= Seq::<u8>::empty());
        }
    }
    if b.len() >= 5 && b[0] == 0xce {
        let s = b.subrange(1, 5);
        assert(be_value(s) == s[0] as int * 0x100_0000 + s[1] as int * 0x1_0000 + s[2] as int * 0x100 + s[3] as int) by {
            reveal_with_fuel(be_value, 5);
            assert(s.drop_last().drop_last().drop_last().drop_last() =~= Seq::<u8>::empty());
            assert(s.drop_last().drop_last().drop_last().last() == s[0]);
            assert(s.drop_last().drop_last().last() == s[1]);
            assert(s.drop_last().last() == s[2]);
        }
    }
    if b.len() >= 2 && b[0] == 0xd0 {
        assert(signed_of(b[1] as nat, 256) == if b[1] >= 128 { b[1] as int - 256 } else { b[1] as int });
    }
}

} // verus!
