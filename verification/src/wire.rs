//! Fixed-width integers as byte strings: big- and little-endian encodings
//! over unbounded naturals, and the executable readers and writers that
//! the codecs share.
use vstd::prelude::*;

verus! {

/// `256^n`.
pub open spec fn pow256(n: nat) -> nat
    decreases n,
{
    if n == 0 {
        1
    } else {
        256 * pow256((n - 1) as nat)
    }
}

/// The natural number that the big-endian byte string `s` denotes.
pub open spec fn be_value(s: Seq<u8>) -> nat
    decreases s.len(),
{
    if s.len() == 0 {
        0
    } else {
        be_value(s.drop_last()) * 256 + s.last() as nat
    }
}

/// The `n` low-order bytes of `u`, most significant first.
pub open spec fn be_bytes(u: nat, n: nat) -> Seq<u8>
    decreases n,
{
    if n == 0 {
        Seq::empty()
    } else {
        be_bytes(u / 256, (n - 1) as nat).push((u % 256) as u8)
    }
}

/// The natural number that the little-endian byte string `s` denotes.
pub open spec fn le_value(s: Seq<u8>) -> nat
    decreases s.len(),
{
    if s.len() == 0 {
        0
    } else {
        s[0] as nat + 256 * le_value(s.drop_first())
    }
}

/// The `n` low-order bytes of `u`, least significant first.
pub open spec fn le_bytes(u: nat, n: nat) -> Seq<u8>
    decreases n,
{
    if n == 0 {
        Seq::empty()
    } else {
        seq![(u % 256) as u8] + le_bytes(u / 256, (n - 1) as nat)
    }
}

pub proof fn lemma_pow256_values()
    ensures
        pow256(0) == 1,
        pow256(1) == 256,
        pow256(2) == 0x1_0000,
        pow256(3) == 0x100_0000,
        pow256(4) == 0x1_0000_0000,
        pow256(8) == 0x1_0000_0000_0000_0000,
{
    reveal_with_fuel(pow256, 9);
}

pub proof fn lemma_pow256_positive(n: nat)
    ensures
        pow256(n) >= 1,
    decreases n,
{
    if n > 0 {
        lemma_pow256_positive((n - 1) as nat);
    }
}

pub proof fn lemma_pow256_monotone(m: nat, n: nat)
    requires
        m <= n,
    ensures
        pow256(m) <= pow256(n),
    decreases n,
{
    if m < n {
        lemma_pow256_monotone(m, (n - 1) as nat);
        lemma_pow256_positive((n - 1) as nat);
    }
}

pub proof fn lemma_be_bytes_len(u: nat, n: nat)
    ensures
        be_bytes(u, n).len() == n,
    decreases n,
{
    if n > 0 {
        lemma_be_bytes_len(u / 256, (n - 1) as nat);
    }
}

pub proof fn lemma_le_bytes_len(u: nat, n: nat)
    ensures
        le_bytes(u, n).len() == n,
    decreases n,
{
    if n > 0 {
        lemma_le_bytes_len(u / 256, (n - 1) as nat);
    }
}

/// A big-endian string of `n` bytes denotes a number below `256^n`.
pub proof fn lemma_be_value_bound(s: Seq<u8>)
    ensures
        be_value(s) < pow256(s.len()),
    decreases s.len(),
{
    if s.len() > 0 {
        let p = s.drop_last();
        lemma_be_value_bound(p);
        let a = be_value(p);
        let b = pow256(p.len());
        assert(a * 256 + s.last() < 256 * b) by (nonlinear_arith)
            requires
                a < b,
                s.last() < 256,
        ;
    }
}

pub proof fn lemma_le_value_bound(s: Seq<u8>)
    ensures
        le_value(s) < pow256(s.len()),
    decreases s.len(),
{
    if s.len() > 0 {
        let p = s.drop_first();
        lemma_le_value_bound(p);
        let a = le_value(p);
        let b = pow256(p.len());
        assert(s[0] + 256 * a < 256 * b) by (nonlinear_arith)
            requires
                a < b,
                s[0] < 256,
        ;
    }
}

/// Reading back the big-endian bytes of a number that fits gives the number.
pub proof fn lemma_be_roundtrip(u: nat, n: nat)
    requires
        u < pow256(n),
    ensures
        be_value(be_bytes(u, n)) == u,
    decreases n,
{
    if n > 0 {
        let p = pow256((n - 1) as nat);
        assert(u / 256 < p) by (nonlinear_arith)
            requires
                u < 256 * p,
        ;
        lemma_be_roundtrip(u / 256, (n - 1) as nat);
        let s = be_bytes(u, n);
        assert(s.drop_last() == be_bytes(u / 256, (n - 1) as nat));
    } else {
        reveal_with_fuel(pow256, 1);
    }
}

/// Reading back the little-endian bytes of a number that fits gives the number.
pub proof fn lemma_le_roundtrip(u: nat, n: nat)
    requires
        u < pow256(n),
    ensures
        le_value(le_bytes(u, n)) == u,
    decreases n,
{
    if n > 0 {
        let p = pow256((n - 1) as nat);
        assert(u / 256 < p) by (nonlinear_arith)
            requires
                u < 256 * p,
        ;
        lemma_le_roundtrip(u / 256, (n - 1) as nat);
        let s = le_bytes(u, n);
        assert(s.drop_first() == le_bytes(u / 256, (n - 1) as nat));
    }
}

/// Writing the big-endian bytes of a read-back string gives the string.
pub proof fn lemma_be_bytes_of_value(s: Seq<u8>)
    ensures
        be_bytes(be_value(s), s.len()) == s,
    decreases s.len(),
{
    if s.len() > 0 {
        let p = s.drop_last();
        lemma_be_bytes_of_value(p);
        let v = be_value(s);
        assert(v / 256 == be_value(p) && v % 256 == s.last()) by (nonlinear_arith)
            requires
                v == be_value(p) * 256 + s.last(),
                s.last() < 256,
        ;
        assert(be_bytes(v, s.len()) =~= s);
    }
}

/// Appends the `n` low-order bytes of `u`, most significant first.
pub fn push_be(out: &mut Vec<u8>, u: u64, n: usize)
    requires
        n <= 8,
    ensures
        final(out)@ == old(out)@ + be_bytes(u as nat, n as nat),
    decreases n,
{
    if n > 0 {
        push_be(out, u / 256, n - 1);
        let ghost mid = out@;
        out.push((u % 256) as u8);
        proof {
            assert(be_bytes(u as nat, n as nat) == be_bytes((u / 256) as nat, (n - 1) as nat).push(
                (u % 256) as u8,
            ));
            assert(out@ =~= old(out)@ + be_bytes(u as nat, n as nat));
        }
    } else {
        assert(out@ =~= old(out)@ + be_bytes(u as nat, n as nat));
    }
}

/// Appends the `n` low-order bytes of `u`, least significant first.
pub fn push_le(out: &mut Vec<u8>, u: u64, n: usize)
    requires
        n <= 8,
    ensures
        final(out)@ == old(out)@ + le_bytes(u as nat, n as nat),
    decreases n,
{
    if n > 0 {
        out.push((u % 256) as u8);
        push_le(out, u / 256, n - 1);
        proof {
            assert(out@ =~= old(out)@ + le_bytes(u as nat, n as nat));
        }
    } else {
        assert(out@ =~= old(out)@ + le_bytes(u as nat, n as nat));
    }
}

/// The big-endian number in `b[start..start + n]`.
pub fn read_be(b: &[u8], start: usize, n: usize) -> (r: u64)
    requires
        n <= 8,
        start + n <= b@.len(),
    ensures
        r as nat == be_value(b@.subrange(start as int, start + n)),
{
    let mut acc: u64 = 0;
    let mut i: usize = 0;
    proof {
        lemma_pow256_values();
    }
    while i < n
        invariant
            i <= n,
            n <= 8,
            start + n <= b@.len(),
            b@.len() == b.len(),
            acc as nat == be_value(b@.subrange(start as int, start + i)),
            pow256(8) == 0x1_0000_0000_0000_0000,
        decreases n - i,
    {
        let ghost s = b@.subrange(start as int, start + i);
        proof {
            lemma_be_value_bound(s);
            lemma_pow256_monotone(i as nat, 7);
            reveal_with_fuel(pow256, 9);
        }
        let byte = b[start + i];
        assert(acc * 256 + byte < 0x1_0000_0000_0000_0000) by (nonlinear_arith)
            requires
                acc < pow256(7),
                pow256(7) == 0x100_0000_0000_0000,
                byte < 256,
        ;
        acc = acc * 256 + byte as u64;
        i = i + 1;
        assert(b@.subrange(start as int, start + i).drop_last() =~= s);
    }
    acc
}

/// The little-endian number in `b[start..start + n]`.
pub fn read_le(b: &[u8], start: usize, n: usize) -> (r: u64)
    requires
        n <= 8,
        start + n <= b@.len(),
    ensures
        r as nat == le_value(b@.subrange(start as int, start + n)),
{
    let mut acc: u64 = 0;
    let mut i: usize = n;
    proof {
        lemma_pow256_values();
    }
    while i > 0
        invariant
            i <= n,
            n <= 8,
            start + n <= b@.len(),
            b@.len() == b.len(),
            acc as nat == le_value(b@.subrange(start + i, start + n)),
            pow256(8) == 0x1_0000_0000_0000_0000,
        decreases i,
    {
        let ghost s = b@.subrange(start + i, start + n);
        proof {
            lemma_le_value_bound(s);
            lemma_pow256_monotone((n - i) as nat, 7);
            reveal_with_fuel(pow256, 9);
        }
        let byte = b[start + i - 1];
        assert(byte + 256 * acc < 0x1_0000_0000_0000_0000) by (nonlinear_arith)
            requires
                acc < pow256(7),
                pow256(7) == 0x100_0000_0000_0000,
                byte < 256,
        ;
        acc = byte as u64 + 256 * acc;
        i = i - 1;
        assert(b@.subrange(start + i, start + n).drop_first() =~= s);
    }
    acc
}

} // verus!
