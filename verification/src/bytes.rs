//! Big-endian integer encodings and byte-string helpers shared by the
//! record layer and the transport framing.

use vstd::prelude::*;

verus! {

/// The `n` low-order bytes of `x`, most significant first.
pub open spec fn be_bytes(x: nat, n: nat) -> Seq<u8>
    decreases n,
{
    if n == 0 {
        Seq::<u8>::empty()
    } else {
        be_bytes(x / 256, (n - 1) as nat).push((x % 256) as u8)
    }
}

/// The number that the big-endian byte string `s` denotes.
pub open spec fn be_value(s: Seq<u8>) -> nat
    decreases s.len(),
{
    if s.len() == 0 {
        0
    } else {
        256 * be_value(s.drop_last()) + s.last() as nat
    }
}

/// `be_bytes(x, n)` has exactly `n` bytes.
pub proof fn lemma_be_bytes_len(x: nat, n: nat)
    ensures
        be_bytes(x, n).len() == n,
    decreases n,
{
    if n > 0 {
        lemma_be_bytes_len(x / 256, (n - 1) as nat);
    }
}

/// Decoding inverts encoding for every number that fits in `n` bytes:
/// the value of `be_bytes(x, n)` is `x` reduced modulo `256^n`, hence `x`
/// itself when `x / 256^n == 0`.
pub proof fn lemma_be_roundtrip(x: nat, n: nat)
    ensures
        be_value(be_bytes(x, n)) + pow256(n) * (x / pow256(n)) == x,
    decreases n,
{
    if n == 0 {
        assert(pow256(0) == 1);
    } else {
        let hi = x / 256;
        let m = (n - 1) as nat;
        lemma_be_roundtrip(hi, m);
        lemma_be_bytes_len(hi, m);
        let s = be_bytes(x, n);
        assert(s.drop_last() =~= be_bytes(hi, m));
        assert(hi / pow256(m) == x / pow256(n)) by {
            lemma_pow256_pos(m);
            vstd::arithmetic::div_mod::lemma_div_denominator(x as int, 256, pow256(m) as int);
        }
        assert(256 * (pow256(m) * (hi / pow256(m))) == pow256(n) * (x / pow256(n)))
            by (nonlinear_arith)
            requires
                256 * pow256(m) == pow256(n),
                hi / pow256(m) == x / pow256(n),
        ;
        assert(256 * (be_value(be_bytes(hi, m)) + pow256(m) * (hi / pow256(m))) == 256
            * be_value(be_bytes(hi, m)) + 256 * (pow256(m) * (hi / pow256(m))))
            by (nonlinear_arith);
    }
}

/// Distinct numbers that fit in `n` bytes have distinct encodings.
pub proof fn lemma_be_bytes_injective(x: nat, y: nat, n: nat)
    requires
        x < pow256(n),
        y < pow256(n),
        be_bytes(x, n) == be_bytes(y, n),
    ensures
        x == y,
{
    lemma_be_roundtrip(x, n);
    lemma_be_roundtrip(y, n);
    assert(x / pow256(n) == 0 && y / pow256(n) == 0) by {
        vstd::arithmetic::div_mod::lemma_basic_div(x as int, pow256(n) as int);
        vstd::arithmetic::div_mod::lemma_basic_div(y as int, pow256(n) as int);
    }
}

/// Eight bytes hold every 64-bit number: `256^8` is `2^64`.
pub proof fn lemma_pow256_8()
    ensures
        pow256(8) == 0x1_0000_0000_0000_0000,
{
    reveal_with_fuel(pow256, 9);
}

/// `256^n`.
pub open spec fn pow256(n: nat) -> nat
    decreases n,
{
    if n == 0 {
        1
    } else {
        256 * pow256((n - 1) as nat)
    }
}

/// A power of 256 is positive.
pub proof fn lemma_pow256_pos(n: nat)
    ensures
        pow256(n) > 0,
    decreases n,
{
    if n > 0 {
        lemma_pow256_pos((n - 1) as nat);
    }
}

/// The eight bytes of `x`, most significant first.
pub fn u64_to_be_bytes(x: u64) -> (out: [u8; 8])
    ensures
        out@ == be_bytes(x as nat, 8),
{
    let mut out: [u8; 8] = [0u8; 8];
    let mut v: u64 = x;
    let mut k: usize = 8;
    while k > 0
        invariant
            k <= 8,
            out@.len() == 8,
            be_bytes(x as nat, 8) =~= be_bytes(v as nat, k as nat) + out@.subrange(k as int, 8),
        decreases k,
    {
        k = k - 1;
        out[k] = (v % 256) as u8;
        v = v / 256;
    }
    out
}

/// The four bytes of `x`, most significant first.
pub fn u32_to_be_bytes(x: u32) -> (out: [u8; 4])
    ensures
        out@ == be_bytes(x as nat, 4),
{
    let mut out: [u8; 4] = [0u8; 4];
    let mut v: u32 = x;
    let mut k: usize = 4;
    while k > 0
        invariant
            k <= 4,
            out@.len() == 4,
            be_bytes(x as nat, 4) =~= be_bytes(v as nat, k as nat) + out@.subrange(k as int, 4),
        decreases k,
    {
        k = k - 1;
        out[k] = (v % 256) as u8;
        v = v / 256;
    }
    out
}

/// The number that four big-endian bytes denote.
pub fn u32_from_be_bytes(bytes: &[u8; 4]) -> (x: u32)
    ensures
        x == be_value(bytes@),
{
    let mut acc: u32 = 0;
    let mut i: usize = 0;
    proof {
        reveal_with_fuel(pow256, 5);
    }
    while i < 4
        invariant
            i <= 4,
            acc == be_value(bytes@.subrange(0, i as int)),
            acc < pow256(i as nat),
        decreases 4 - i,
    {
        proof {
            reveal_with_fuel(pow256, 5);
            let next = bytes@.subrange(0, i + 1);
            assert(next.drop_last() =~= bytes@.subrange(0, i as int));
        }
        acc = acc * 256 + bytes[i] as u32;
        i = i + 1;
    }
    assert(bytes@.subrange(0, 4) =~= bytes@);
    acc
}

/// Appends `src` to `out`.
pub fn append(out: &mut Vec<u8>, src: &[u8])
    ensures
        final(out)@ == old(out)@ + src@,
{
    out.extend_from_slice(src);
}

/// The two byte strings joined, `a` first.
pub fn join(a: &[u8], b: &[u8]) -> (out: Vec<u8>)
    ensures
        out@ == a@ + b@,
{
    let mut out: Vec<u8> = Vec::new();
    append(&mut out, a);
    append(&mut out, b);
    out
}

/// The `N` bytes of `src` that start at `start`.
pub fn array_from<const N: usize>(src: &[u8], start: usize) -> (out: [u8; N])
    requires
        start + N <= src@.len(),
    ensures
        out@ == src@.subrange(start as int, start + N),
{
    let mut out: [u8; N] = [0u8; N];
    let mut i: usize = 0;
    while i < N
        invariant
            i <= N,
            start + N <= src.len(),
            forall|j: int| 0 <= j < i ==> out@[j] == src@[start + j],
        decreases N - i,
    {
        out[i] = src[start + i];
        i = i + 1;
    }
    out
}

} // verus!
