//! The building blocks of the wire format: variable-length integers and
//! length-prefixed byte strings.
//!
//! An integer is written seven bits at a time, least significant group
//! first, with the top bit of a byte set while more bytes follow. A reader
//! takes at most ten bytes for one integer and refuses a tenth byte that
//! would carry the value past 64 bits; it does not insist on the shortest
//! form.

use vstd::prelude::*;
use vstd::slice::{slice_subrange, slice_to_vec};

use crate::bytes::append;

verus! {

/// The most bytes that one integer may occupy.
pub const VARINT_MAX_BYTES: usize = 10;

/// The shortest encoding of `n`.
pub open spec fn varint(n: nat) -> Seq<u8>
    decreases n,
{
    if n < 128 {
        seq![n as u8]
    } else {
        seq![(n % 128 + 128) as u8] + varint(n / 128)
    }
}

/// Reads the rest of an integer whose first `index` bytes have been taken,
/// from position `pos` of `s`: the value of that rest and the position
/// after it, or `None` where `s` ends early or the integer is too long.
pub open spec fn parse_varint(s: Seq<u8>, pos: int, index: nat) -> Option<(nat, int)>
    decreases 10 - index,
{
    if index >= 10 || pos < 0 || pos >= s.len() {
        None
    } else if s[pos] < 128 {
        if index == 9 && s[pos] > 1 {
            None
        } else {
            Some((s[pos] as nat, pos + 1))
        }
    } else {
        match parse_varint(s, pos + 1, index + 1) {
            Some((rest, end)) => Some(((s[pos] - 128) as nat + 128 * rest, end)),
            None => None,
        }
    }
}

/// A byte string on the wire: its length, then its bytes.
pub open spec fn byte_string(b: Seq<u8>) -> Seq<u8> {
    varint(b.len()) + b
}

/// Reads a length-prefixed byte string at position `pos` of `s`: the bytes
/// and the position after them, or `None` where the length cannot be read or
/// `s` holds fewer bytes than it announces.
pub open spec fn parse_byte_string(s: Seq<u8>, pos: int) -> Option<(Seq<u8>, int)> {
    match parse_varint(s, pos, 0) {
        Some((len, start)) => if start + len <= s.len() {
            Some((s.subrange(start, start + len), start + len))
        } else {
            None
        },
        None => None,
    }
}

/// `128^n`.
pub open spec fn pow128(n: nat) -> nat
    decreases n,
{
    if n == 0 {
        1
    } else {
        128 * pow128((n - 1) as nat)
    }
}

/// The powers of 128 that a 64-bit integer can reach.
proof fn lemma_pow128_values()
    ensures
        pow128(0) == 1,
        pow128(1) == 0x80,
        pow128(2) == 0x4000,
        pow128(3) == 0x20_0000,
        pow128(4) == 0x1000_0000,
        pow128(5) == 0x8_0000_0000,
        pow128(6) == 0x400_0000_0000,
        pow128(7) == 0x2_0000_0000_0000,
        pow128(8) == 0x100_0000_0000_0000,
        pow128(9) == 0x8000_0000_0000_0000,
{
    reveal_with_fuel(pow128, 11);
}

/// An encoded integer is never empty.
pub proof fn lemma_varint_len(n: nat)
    ensures
        varint(n).len() >= 1,
    decreases n,
{
    if n >= 128 {
        lemma_varint_len(n / 128);
    }
}

/// Whatever `parse_varint` reads ends inside `s`, at most ten bytes after
/// the integer began, and is worth less than `2^64 / 128^index`: a whole
/// integer fits in 64 bits.
pub proof fn lemma_parse_varint_bounds(s: Seq<u8>, pos: int, index: nat)
    ensures
        parse_varint(s, pos, index) matches Some((value, end)) ==> pos < end <= s.len() && end
            <= pos + 10 - index && (value + 1) * pow128(index) <= 0x1_0000_0000_0000_0000,
        index == 0 ==> (parse_varint(s, pos, index) matches Some((value, end)) ==> value
            <= u64::MAX),
    decreases 10 - index,
{
    lemma_pow128_values();
    if index >= 10 || pos < 0 || pos >= s.len() {
    } else if s[pos] < 128 {
        let b = s[pos] as nat;
        let p = pow128(index);
        if index == 9 && b > 1 {
        } else if index == 9 {
            assert((b + 1) * p <= 0x1_0000_0000_0000_0000) by (nonlinear_arith)
                requires
                    b <= 1,
                    p == 0x8000_0000_0000_0000,
            ;
        } else {
            assert((b + 1) * p <= 0x1_0000_0000_0000_0000) by (nonlinear_arith)
                requires
                    b <= 127,
                    128 * p <= 0x8000_0000_0000_0000,
            ;
        }
    } else {
        lemma_parse_varint_bounds(s, pos + 1, index + 1);
        if let Some((rest, end)) = parse_varint(s, pos + 1, index + 1) {
            let b = (s[pos] - 128) as nat;
            let p = pow128(index);
            assert((b + 128 * rest + 1) * p <= 0x1_0000_0000_0000_0000) by (nonlinear_arith)
                requires
                    b <= 127,
                    (rest + 1) * (128 * p) <= 0x1_0000_0000_0000_0000,
            ;
        }
    }
}

/// Reading inverts writing: where `s` holds the shortest encoding of `n` at
/// `pos`, the reader returns `n` and the position after the encoding. `n`
/// must leave room for the `index` bytes already taken, which every 64-bit
/// number does at `index` 0.
pub proof fn lemma_varint_roundtrip(s: Seq<u8>, pos: int, n: nat, index: nat)
    requires
        0 <= pos,
        index <= 9,
        (n + 1) * pow128(index) <= 0x1_0000_0000_0000_0000,
        pos + varint(n).len() <= s.len(),
        s.subrange(pos, pos + varint(n).len()) == varint(n),
    ensures
        parse_varint(s, pos, index) == Some((n, pos + varint(n).len())),
    decreases n,
{
    lemma_pow128_values();
    lemma_varint_len(n);
    let enc = varint(n);
    assert(s[pos] == enc[0]);
    let p = pow128(index);
    if n < 128 {
        if index == 9 {
            assert(n <= 1) by (nonlinear_arith)
                requires
                    (n + 1) * p <= 0x1_0000_0000_0000_0000,
                    p == 0x8000_0000_0000_0000,
            ;
        }
    } else {
        let tail = varint(n / 128);
        assert(index < 9 && (n / 128 + 1) * (128 * p) <= 0x1_0000_0000_0000_0000) by {
            lemma_high_part_fits(n, index);
        }
        assert(s.subrange(pos + 1, pos + 1 + tail.len()) =~= tail) by {
            assert forall|i: int| 0 <= i < tail.len() implies s[pos + 1 + i] == tail[i] by {
                assert(enc[i + 1] == tail[i]);
            }
        }
        lemma_varint_roundtrip(s, pos + 1, n / 128, index + 1);
    }
}

/// The step of `lemma_varint_roundtrip`: a number of more than seven bits
/// that leaves room for `index` bytes leaves room, without its low seven
/// bits, for one byte more.
proof fn lemma_high_part_fits(n: nat, index: nat)
    requires
        n >= 128,
        index <= 9,
        (n + 1) * pow128(index) <= 0x1_0000_0000_0000_0000,
    ensures
        index < 9,
        (n / 128 + 1) * (128 * pow128(index)) <= 0x1_0000_0000_0000_0000,
{
    lemma_pow128_values();
    let p = pow128(index);
    let q = n / 128;
    // The limit 2^64 / p is a multiple of 128 unless p is 2^63.
    let limit: nat = if index == 0 {
        0x1_0000_0000_0000_0000
    } else if index == 1 {
        0x200_0000_0000_0000
    } else if index == 2 {
        0x4_0000_0000_0000
    } else if index == 3 {
        0x800_0000_0000
    } else if index == 4 {
        0x10_0000_0000
    } else if index == 5 {
        0x2000_0000
    } else if index == 6 {
        0x40_0000
    } else if index == 7 {
        0x8000
    } else if index == 8 {
        0x100
    } else {
        2
    };
    assert(limit * p == 0x1_0000_0000_0000_0000);
    assert(n + 1 <= limit) by (nonlinear_arith)
        requires
            (n + 1) * p <= 0x1_0000_0000_0000_0000,
            limit * p == 0x1_0000_0000_0000_0000,
            p >= 1,
    ;
    assert(q + 1 <= limit / 128);
    assert((q + 1) * (128 * p) <= 0x1_0000_0000_0000_0000) by (nonlinear_arith)
        requires
            q + 1 <= limit / 128,
            (limit / 128) * 128 == limit,
            limit * p == 0x1_0000_0000_0000_0000,
            p >= 1,
    ;
}

/// Where `s` holds the byte string `b` at `pos`, the reader returns `b` and
/// the position after it.
pub proof fn lemma_byte_string_roundtrip(s: Seq<u8>, pos: int, b: Seq<u8>)
    requires
        0 <= pos,
        b.len() <= u64::MAX,
        pos + byte_string(b).len() <= s.len(),
        s.subrange(pos, pos + byte_string(b).len()) == byte_string(b),
    ensures
        parse_byte_string(s, pos) == Some((b, pos + byte_string(b).len())),
{
    lemma_pow128_values();
    let prefix = varint(b.len());
    let whole = byte_string(b);
    assert(s.subrange(pos, pos + prefix.len()) =~= prefix) by {
        assert forall|i: int| 0 <= i < prefix.len() implies s[pos + i] == prefix[i] by {
            assert(s.subrange(pos, pos + whole.len())[i] == s[pos + i]);
        }
    }
    lemma_varint_roundtrip(s, pos, b.len(), 0);
    let start = pos + prefix.len();
    assert(s.subrange(start, start + b.len()) =~= b) by {
        assert forall|i: int| 0 <= i < b.len() implies s[start + i] == b[i] by {
            assert(s.subrange(pos, pos + whole.len())[prefix.len() + i] == s[start + i]);
        }
    }
}

/// Appends the shortest encoding of `n` to `out`.
pub fn write_varint(out: &mut Vec<u8>, n: u64)
    ensures
        final(out)@ == old(out)@ + varint(n as nat),
{
    let mut value: u64 = n;
    while value >= 128
        invariant
            old(out)@ + varint(n as nat) == out@ + varint(value as nat),
        decreases value,
    {
        out.push((value % 128 + 128) as u8);
        value = value / 128;
    }
    out.push(value as u8);
}

/// Appends `b` to `out` as a length-prefixed byte string.
pub fn write_byte_string(out: &mut Vec<u8>, b: &[u8])
    ensures
        final(out)@ == old(out)@ + byte_string(b@),
{
    write_varint(out, b.len() as u64);
    append(out, b);
}

/// Reads an integer at position `pos` of `s`.
pub fn read_varint(s: &[u8], pos: usize) -> (result: Option<(u64, usize)>)
    requires
        pos <= s@.len(),
    ensures
        result is Some <==> parse_varint(s@, pos as int, 0) is Some,
        result matches Some((value, end)) ==> parse_varint(s@, pos as int, 0) == Some(
            (value as nat, end as int),
        ) && pos < end <= s@.len(),
{
    let mut cur: usize = pos;
    let mut index: usize = 0;
    let mut acc: u64 = 0;
    let mut mult: u64 = 1;
    proof {
        lemma_pow128_values();
    }
    while index < VARINT_MAX_BYTES
        invariant
            index <= 9,
            cur == pos + index,
            cur <= s.len(),
            mult == pow128(index as nat),
            acc < mult,
            parse_varint(s@, pos as int, 0) == (match parse_varint(
                s@,
                cur as int,
                index as nat,
            ) {
                Some((rest, end)) => Some(((acc + mult * rest) as nat, end)),
                None => None,
            }),
        decreases 10 - index,
    {
        if cur >= s.len() {
            return None;
        }
        let b = s[cur];
        proof {
            lemma_pow128_values();
            lemma_parse_varint_bounds(s@, cur as int, index as nat);
        }
        if b < 128 {
            if index == 9 && b > 1 {
                return None;
            }
            assert(mult * b + acc <= u64::MAX) by (nonlinear_arith)
                requires
                    acc < mult,
                    (index == 9 && b <= 1 && mult == 0x8000_0000_0000_0000) || (b <= 127 && 128
                        * mult <= 0x8000_0000_0000_0000),
            ;
            let value = acc + mult * (b as u64);
            return Some((value, cur + 1));
        }
        if index == 9 {
            return None;
        }
        let low = (b - 128) as u64;
        assert(mult * low + acc < 128 * mult && 128 * mult <= 0x8000_0000_0000_0000)
            by (nonlinear_arith)
            requires
                acc < mult,
                low <= 127,
                128 * mult <= 0x8000_0000_0000_0000,
        ;
        proof {
            let next = parse_varint(s@, cur + 1, (index + 1) as nat);
            if let Some((rest, end)) = next {
                assert(acc + mult * (low + 128 * rest) == (acc + mult * low) + (mult * 128) * rest)
                    by (nonlinear_arith);
            }
        }
        acc = acc + mult * low;
        mult = mult * 128;
        cur = cur + 1;
        index = index + 1;
    }
    None
}

/// Reads a length-prefixed byte string at position `pos` of `s`.
pub fn read_byte_string(s: &[u8], pos: usize) -> (result: Option<(Vec<u8>, usize)>)
    requires
        pos <= s@.len(),
    ensures
        result is Some <==> parse_byte_string(s@, pos as int) is Some,
        result matches Some((bytes, end)) ==> parse_byte_string(s@, pos as int) == Some(
            (bytes@, end as int),
        ) && pos < end <= s@.len(),
{
    match read_varint(s, pos) {
        None => None,
        Some((len, start)) => {
            if len > (s.len() - start) as u64 {
                None
            } else {
                let end = start + len as usize;
                Some((slice_to_vec(slice_subrange(s, start, end)), end))
            }
        },
    }
}

} // verus!
