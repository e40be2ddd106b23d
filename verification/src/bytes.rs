//! Little-endian unsigned integers.
use vstd::prelude::*;

verus! {

/// The unsigned number whose little-endian bytes are `b`.
pub open spec fn le_uint(b: Seq<u8>) -> nat
    decreases b.len(),
{
    if b.len() == 0 {
        0
    } else {
        b[0] as nat + 256 * le_uint(b.drop_first())
    }
}

/// The `n` little-endian bytes of `v` (its low `8 * n` bits).
pub open spec fn le_bytes(v: nat, n: nat) -> Seq<u8>
    decreases n,
{
    if n == 0 {
        seq![]
    } else {
        seq![(v % 256) as u8] + le_bytes(v / 256, (n - 1) as nat)
    }
}

/// `256` to the power `n`.
pub open spec fn pow256(n: nat) -> nat
    decreases n,
{
    if n == 0 {
        1
    } else {
        256 * pow256((n - 1) as nat)
    }
}

pub proof fn lemma_pow256_step(n: nat)
    ensures
        pow256(n + 1) == 256 * pow256(n),
{
}

pub proof fn lemma_pow256_mono(a: nat, b: nat)
    requires
        a <= b,
    ensures
        pow256(a) <= pow256(b),
    decreases b,
{
    if a < b {
        lemma_pow256_mono(a, (b - 1) as nat);
    }
}

pub proof fn lemma_pow256_small()
    ensures
        pow256(4) == 0x1_0000_0000,
        pow256(8) == 0x1_0000_0000_0000_0000,
{
    reveal_with_fuel(pow256, 9);
}

/// A number read from `n` bytes is below `256^n`.
pub proof fn lemma_le_uint_bound(b: Seq<u8>)
    ensures
        le_uint(b) < pow256(b.len()),
    decreases b.len(),
{
    if b.len() > 0 {
        lemma_le_uint_bound(b.drop_first());
        lemma_pow256_step((b.len() - 1) as nat);
    }
}

/// Reading back the bytes written for a number that fits gives the number.
pub proof fn lemma_le_roundtrip(v: nat, n: nat)
    requires
        v < pow256(n),
    ensures
        le_bytes(v, n).len() == n,
        le_uint(le_bytes(v, n)) == v,
    decreases n,
{
    if n > 0 {
        lemma_pow256_step((n - 1) as nat);
        assert(v / 256 < pow256((n - 1) as nat));
        lemma_le_roundtrip(v / 256, (n - 1) as nat);
        let s = le_bytes(v, n);
        assert(s.drop_first() =~= le_bytes(v / 256, (n - 1) as nat));
    }
}

/// The unsigned number whose little-endian bytes are `b`.
pub fn le_u64(b: &[u8]) -> (r: u64)
    requires
        b@.len() <= 8,
    ensures
        r == le_uint(b@),
{
    let n: usize = b.len();
    let mut v: u64 = 0;
    let mut k: usize = n;
    proof {
        lemma_pow256_small();
        lemma_pow256_mono(n as nat, 8);
        assert(b@.subrange(n as int, n as int) =~= Seq::<u8>::empty());
    }
    while k > 0
        invariant
            k <= n == b@.len() <= 8,
            v == le_uint(b@.subrange(k as int, n as int)),
            v < pow256((n - k) as nat),
            pow256(n as nat) <= pow256(8),
            pow256(8) == 0x1_0000_0000_0000_0000,
        decreases k,
    {
        proof {
            lemma_pow256_step((n - k) as nat);
            assert(b@.subrange(k - 1, n as int).drop_first() =~= b@.subrange(k as int, n as int));
            lemma_pow256_mono((n - k + 1) as nat, n as nat);
        }
        k = k - 1;
        let byte: u64 = b[k] as u64;
        v = v * 256 + byte;
    }
    assert(b@.subrange(0, n as int) =~= b@);
    v
}

/// Appends the `n` little-endian bytes of `v`.
pub fn push_le(out: &mut Vec<u8>, v: u64, n: usize)
    ensures
        final(out)@ == old(out)@ + le_bytes(v as nat, n as nat),
{
    let mut rest: u64 = v;
    let mut k: usize = 0;
    let ghost start = out@;
    while k < n
        invariant
            k <= n,
            out@ + le_bytes(rest as nat, (n - k) as nat) == start + le_bytes(v as nat, n as nat),
        decreases n - k,
    {
        let byte: u8 = (rest % 256) as u8;
        let ghost before = out@;
        out.push(byte);
        proof {
            let m = (n - k) as nat;
            assert(le_bytes(rest as nat, m) == seq![(rest as nat % 256) as u8] + le_bytes(
                rest as nat / 256,
                (m - 1) as nat,
            ));
            assert(out@ + le_bytes(rest as nat / 256, (m - 1) as nat) =~= before + le_bytes(
                rest as nat,
                m,
            ));
        }
        rest = rest / 256;
        k = k + 1;
    }
    assert(out@ + le_bytes(rest as nat, 0) =~= out@);
}

} // verus!
