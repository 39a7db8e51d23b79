//! Little-endian decoding of firmware-supplied byte buffers.

use vstd::prelude::*;

verus! {

/// `256` raised to the power `n`.
pub open spec fn pow256(n: nat) -> nat
    decreases n,
{
    if n == 0 {
        1
    } else {
        256 * pow256((n - 1) as nat)
    }
}

/// The unsigned integer whose little-endian encoding is `s`.
pub open spec fn le_value(s: Seq<u8>) -> nat
    decreases s.len(),
{
    if s.len() == 0 {
        0
    } else {
        s[0] as nat + 256 * le_value(s.drop_first())
    }
}

/// The little-endian integer held by the `n` bytes of `s` that start at `off`.
pub open spec fn le_at(s: Seq<u8>, off: int, n: int) -> nat {
    le_value(s.subrange(off, off + n))
}

/// The `n`-byte little-endian encoding of `v` (its low `n` bytes).
pub open spec fn le_encode(v: nat, n: nat) -> Seq<u8>
    decreases n,
{
    if n == 0 {
        Seq::empty()
    } else {
        seq![(v % 256) as u8] + le_encode(v / 256, (n - 1) as nat)
    }
}

pub proof fn lemma_pow256_values()
    ensures
        pow256(1) == 0x100,
        pow256(2) == 0x1_0000,
        pow256(4) == 0x1_0000_0000,
        pow256(8) == 0x1_0000_0000_0000_0000,
{
    reveal_with_fuel(pow256, 9);
}

pub proof fn lemma_pow256_monotonic(a: nat, b: nat)
    requires
        a <= b,
    ensures
        pow256(a) <= pow256(b),
    decreases b,
{
    if a < b {
        lemma_pow256_monotonic(a, (b - 1) as nat);
    }
}

/// A little-endian value of `n` bytes is below `256^n`.
pub proof fn lemma_le_value_bound(s: Seq<u8>)
    ensures
        le_value(s) < pow256(s.len()),
    decreases s.len(),
{
    if s.len() > 0 {
        lemma_le_value_bound(s.drop_first());
        let rest = le_value(s.drop_first());
        let p = pow256((s.len() - 1) as nat);
        assert(s[0] as nat + 256 * rest < 256 * p) by (nonlinear_arith)
            requires
                rest < p,
                s[0] < 256,
        ;
    }
}

/// Decoding the `n`-byte encoding of a value below `256^n` gives the value back.
pub proof fn lemma_le_round_trip(v: nat, n: nat)
    requires
        v < pow256(n),
    ensures
        le_encode(v, n).len() == n,
        le_value(le_encode(v, n)) == v,
    decreases n,
{
    if n > 0 {
        let p = pow256((n - 1) as nat);
        assert(v / 256 < p) by (nonlinear_arith)
            requires
                v < 256 * p,
        ;
        lemma_le_round_trip(v / 256, (n - 1) as nat);
        let e = le_encode(v, n);
        assert(e.drop_first() =~= le_encode(v / 256, (n - 1) as nat));
        assert(v == v % 256 + 256 * (v / 256)) by (nonlinear_arith);
    }
}

/// Reads the `n`-byte little-endian integer at `off`.
pub fn read_le(b: &[u8], off: usize, n: usize) -> (r: u64)
    requires
        off + n <= b@.len(),
        n <= 8,
    ensures
        r as nat == le_at(b@, off as int, n as int),
{
    let len = b.len();
    let mut k: usize = n;
    let mut v: u64 = 0;
    proof {
        assert(b@.subrange(off + n, off + n) =~= Seq::<u8>::empty());
    }
    while k > 0
        invariant
            k <= n <= 8,
            len == b@.len(),
            off + n <= len,
            v as nat == le_value(b@.subrange(off + k, off + n)),
        decreases k,
    {
        let ghost tail = b@.subrange(off + k, off + n);
        let ghost whole = b@.subrange(off + k - 1, off + n);
        proof {
            lemma_le_value_bound(tail);
            lemma_pow256_monotonic(tail.len(), 7);
            lemma_pow256_values();
            reveal_with_fuel(pow256, 8);
            assert(whole.drop_first() =~= tail);
            assert(v as nat * 256 + 255 < 0x1_0000_0000_0000_0000) by (nonlinear_arith)
                requires
                    (v as nat) < pow256(tail.len()),
                    pow256(tail.len()) <= pow256(7),
                    pow256(7) == 0x100_0000_0000_0000,
            ;
        }
        let byte = b[off + k - 1];
        v = v * 256 + byte as u64;
        k = k - 1;
    }
    v
}

/// Reads the byte at `off`.
pub fn read_u8(b: &[u8], off: usize) -> (r: u8)
    requires
        off < b@.len(),
    ensures
        r as nat == le_at(b@, off as int, 1),
        r == b@[off as int],
{
    proof {
        let s = b@.subrange(off as int, off + 1);
        assert(s.drop_first() =~= Seq::<u8>::empty());
        reveal_with_fuel(le_value, 2);
    }
    b[off]
}

/// Reads the little-endian `u16` at `off`.
pub fn read_u16(b: &[u8], off: usize) -> (r: u16)
    requires
        off + 2 <= b@.len(),
    ensures
        r as nat == le_at(b@, off as int, 2),
{
    let v = read_le(b, off, 2);
    proof {
        lemma_le_value_bound(b@.subrange(off as int, off + 2));
        lemma_pow256_values();
    }
    v as u16
}

/// Reads the little-endian `u32` at `off`.
pub fn read_u32(b: &[u8], off: usize) -> (r: u32)
    requires
        off + 4 <= b@.len(),
    ensures
        r as nat == le_at(b@, off as int, 4),
{
    let v = read_le(b, off, 4);
    proof {
        lemma_le_value_bound(b@.subrange(off as int, off + 4));
        lemma_pow256_values();
    }
    v as u32
}

/// Reads the little-endian `u64` at `off`.
pub fn read_u64(b: &[u8], off: usize) -> (r: u64)
    requires
        off + 8 <= b@.len(),
    ensures
        r as nat == le_at(b@, off as int, 8),
{
    read_le(b, off, 8)
}

} // verus!

verus! {

/// Copies the bytes of `b` in `[start, end)`.
pub fn copy_range(b: &[u8], start: usize, end: usize) -> (r: Vec<u8>)
    requires
        start <= end <= b@.len(),
    ensures
        r@ == b@.subrange(start as int, end as int),
{
    let mut r: Vec<u8> = Vec::new();
    let mut i: usize = start;
    while i < end
        invariant
            start <= i <= end <= b@.len(),
            r@ == b@.subrange(start as int, i as int),
        decreases end - i,
    {
        r.push(b[i]);
        i = i + 1;
        proof {
            assert(r@ =~= b@.subrange(start as int, i as int));
        }
    }
    r
}

} // verus!
