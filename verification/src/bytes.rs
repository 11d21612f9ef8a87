//! Little-endian byte packing for the wire format's scalar arguments, and the
//! four-byte padding arithmetic that string and array arguments use.

use vstd::prelude::*;

verus! {

/// The bytes of `x` in little-endian order.
pub open spec fn spec_u16_bytes(x: u16) -> Seq<u8> {
    seq![(x & 0xff) as u8, ((x >> 8) & 0xff) as u8]
}

/// The `u16` read from two little-endian bytes.
pub open spec fn spec_u16_of(b: Seq<u8>) -> u16
    recommends
        b.len() == 2,
{
    (b[0] as u16) | ((b[1] as u16) << 8)
}

/// The bytes of `x` in little-endian order.
pub open spec fn spec_u32_bytes(x: u32) -> Seq<u8> {
    seq![
        (x & 0xff) as u8,
        ((x >> 8) & 0xff) as u8,
        ((x >> 16) & 0xff) as u8,
        ((x >> 24) & 0xff) as u8,
    ]
}

/// The `u32` read from four little-endian bytes.
pub open spec fn spec_u32_of(b: Seq<u8>) -> u32
    recommends
        b.len() == 4,
{
    (b[0] as u32) | ((b[1] as u32) << 8) | ((b[2] as u32) << 16) | ((b[3] as u32) << 24)
}

/// The bytes of `x` in little-endian order.
pub open spec fn spec_u64_bytes(x: u64) -> Seq<u8> {
    seq![
        (x & 0xff) as u8,
        ((x >> 8) & 0xff) as u8,
        ((x >> 16) & 0xff) as u8,
        ((x >> 24) & 0xff) as u8,
        ((x >> 32) & 0xff) as u8,
        ((x >> 40) & 0xff) as u8,
        ((x >> 48) & 0xff) as u8,
        ((x >> 56) & 0xff) as u8,
    ]
}

/// The `u64` read from eight little-endian bytes.
pub open spec fn spec_u64_of(b: Seq<u8>) -> u64
    recommends
        b.len() == 8,
{
    (b[0] as u64) | ((b[1] as u64) << 8) | ((b[2] as u64) << 16) | ((b[3] as u64) << 24)
        | ((b[4] as u64) << 32) | ((b[5] as u64) << 40) | ((b[6] as u64) << 48)
        | ((b[7] as u64) << 56)
}

/// Decoding the encoding of a `u16` gives the value back.
pub proof fn lemma_u16_le_roundtrip(x: u16)
    ensures
        spec_u16_of(spec_u16_bytes(x)) == x,
{
    let b0 = (x & 0xff) as u8;
    let b1 = ((x >> 8) & 0xff) as u8;
    assert((b0 as u16) | ((b1 as u16) << 8) == x) by (bit_vector)
        requires
            b0 == (x & 0xff) as u8 && b1 == ((x >> 8) & 0xff) as u8,
    ;
}

/// Decoding the encoding of a `u32` gives the value back.
pub proof fn lemma_u32_le_roundtrip(x: u32)
    ensures
        spec_u32_of(spec_u32_bytes(x)) == x,
{
    let b0 = (x & 0xff) as u8;
    let b1 = ((x >> 8) & 0xff) as u8;
    let b2 = ((x >> 16) & 0xff) as u8;
    let b3 = ((x >> 24) & 0xff) as u8;
    assert((b0 as u32) | ((b1 as u32) << 8) | ((b2 as u32) << 16) | ((b3 as u32) << 24) == x)
        by (bit_vector)
        requires
            b0 == (x & 0xff) as u8 && b1 == ((x >> 8) & 0xff) as u8 && b2 == ((x >> 16)
                & 0xff) as u8 && b3 == ((x >> 24) & 0xff) as u8,
    ;
}

/// Decoding the encoding of a `u64` gives the value back.
pub proof fn lemma_u64_le_roundtrip(x: u64)
    ensures
        spec_u64_of(spec_u64_bytes(x)) == x,
{
    let b0 = (x & 0xff) as u8;
    let b1 = ((x >> 8) & 0xff) as u8;
    let b2 = ((x >> 16) & 0xff) as u8;
    let b3 = ((x >> 24) & 0xff) as u8;
    let b4 = ((x >> 32) & 0xff) as u8;
    let b5 = ((x >> 40) & 0xff) as u8;
    let b6 = ((x >> 48) & 0xff) as u8;
    let b7 = ((x >> 56) & 0xff) as u8;
    assert((b0 as u64) | ((b1 as u64) << 8) | ((b2 as u64) << 16) | ((b3 as u64) << 24) | (
    (b4 as u64) << 32) | ((b5 as u64) << 40) | ((b6 as u64) << 48) | ((b7 as u64) << 56) == x)
        by (bit_vector)
        requires
            b0 == (x & 0xff) as u8 && b1 == ((x >> 8) & 0xff) as u8 && b2 == ((x >> 16)
                & 0xff) as u8 && b3 == ((x >> 24) & 0xff) as u8 && b4 == ((x >> 32) & 0xff) as u8
                && b5 == ((x >> 40) & 0xff) as u8 && b6 == ((x >> 48) & 0xff) as u8 && b7 == ((x
                >> 56) & 0xff) as u8,
    ;
}

/// Append the little-endian bytes of `x` to `buf`.
pub fn push_u32_le(buf: &mut Vec<u8>, x: u32)
    ensures
        final(buf)@ == old(buf)@ + spec_u32_bytes(x),
{
    proof {
        assert(x & 0xff < 256 && (x >> 8) & 0xff < 256 && (x >> 16) & 0xff < 256 && (x >> 24)
            & 0xff < 256) by (bit_vector);
    }
    buf.push((x & 0xff) as u8);
    buf.push(((x >> 8) & 0xff) as u8);
    buf.push(((x >> 16) & 0xff) as u8);
    buf.push(((x >> 24) & 0xff) as u8);
    assert(final(buf)@ =~= old(buf)@ + spec_u32_bytes(x));
}

/// Read the `u16` stored little-endian at `buf[at .. at + 2]`.
pub fn read_u16_le(buf: &[u8], at: usize) -> (r: u16)
    requires
        at + 2 <= buf@.len(),
    ensures
        r == spec_u16_of(buf@.subrange(at as int, at + 2)),
{
    let ghost b = buf@.subrange(at as int, at + 2);
    let r = (buf[at] as u16) | ((buf[at + 1] as u16) << 8);
    assert(b[0] == buf@[at as int] && b[1] == buf@[at + 1]);
    r
}

/// Read the `u32` stored little-endian at `buf[at .. at + 4]`.
pub fn read_u32_le(buf: &[u8], at: usize) -> (r: u32)
    requires
        at + 4 <= buf@.len(),
    ensures
        r == spec_u32_of(buf@.subrange(at as int, at + 4)),
{
    let ghost b = buf@.subrange(at as int, at + 4);
    let r = (buf[at] as u32) | ((buf[at + 1] as u32) << 8) | ((buf[at + 2] as u32) << 16) | ((
    buf[at + 3] as u32) << 24);
    assert(b[0] == buf@[at as int] && b[1] == buf@[at + 1] && b[2] == buf@[at + 2] && b[3]
        == buf@[at + 3]);
    r
}

/// Read the `u64` stored little-endian at `buf[at .. at + 8]`.
pub fn read_u64_le(buf: &[u8], at: usize) -> (r: u64)
    requires
        at + 8 <= buf@.len(),
    ensures
        r == spec_u64_of(buf@.subrange(at as int, at + 8)),
{
    let ghost b = buf@.subrange(at as int, at + 8);
    let r = (buf[at] as u64) | ((buf[at + 1] as u64) << 8) | ((buf[at + 2] as u64) << 16) | ((
    buf[at + 3] as u64) << 24) | ((buf[at + 4] as u64) << 32) | ((buf[at + 5] as u64) << 40) | ((
    buf[at + 6] as u64) << 48) | ((buf[at + 7] as u64) << 56);
    assert(b[0] == buf@[at as int] && b[1] == buf@[at + 1] && b[2] == buf@[at + 2] && b[3]
        == buf@[at + 3] && b[4] == buf@[at + 4] && b[5] == buf@[at + 5] && b[6] == buf@[at + 6]
        && b[7] == buf@[at + 7]);
    r
}

/// Compare two byte strings for equality of contents.
pub fn bytes_eq(a: &[u8], b: &[u8]) -> (r: bool)
    ensures
        r == (a@ == b@),
{
    if a.len() != b.len() {
        return false;
    }
    let mut i: usize = 0;
    while i < a.len()
        invariant
            i <= a@.len(),
            a@.len() == b@.len(),
            forall|j: int| 0 <= j < i ==> a@[j] == b@[j],
        decreases a@.len() - i,
    {
        if a[i] != b[i] {
            return false;
        }
        i = i + 1;
    }
    proof {
        assert(a@ =~= b@);
    }
    true
}

/// `n` rounded up to the next multiple of four.
pub open spec fn spec_pad4(n: int) -> int {
    ((n + 3) / 4) * 4
}

/// Rounding up to a multiple of four adds at most three and lands on a
/// four-byte boundary.
pub proof fn lemma_pad4(n: int)
    requires
        n >= 0,
    ensures
        n <= spec_pad4(n) < n + 4,
        spec_pad4(n) % 4 == 0,
        n % 4 == 0 ==> spec_pad4(n) == n,
{
    assert(n <= ((n + 3) / 4) * 4 < n + 4 && ((n + 3) / 4) * 4 % 4 == 0 && (n % 4 == 0 ==> ((n + 3)
        / 4) * 4 == n)) by (nonlinear_arith)
        requires
            n >= 0,
    ;
}

/// A run of `n` zero bytes.
pub open spec fn spec_zeros(n: int) -> Seq<u8> {
    Seq::new(n as nat, |i: int| 0u8)
}

/// Append zero bytes to `buf` until its length is a multiple of four.
pub fn pad_to_4(buf: &mut Vec<u8>)
    ensures
        final(buf)@ == old(buf)@ + spec_zeros(spec_pad4(old(buf)@.len() as int) - old(
            buf,
        )@.len() as int),
        final(buf)@.len() == spec_pad4(old(buf)@.len() as int),
{
    proof {
        lemma_pad4(old(buf)@.len() as int);
    }
    while buf.len() % 4 != 0
        invariant
            old(buf)@.len() <= buf@.len() <= spec_pad4(old(buf)@.len() as int),
            buf@ == old(buf)@ + spec_zeros(buf@.len() - old(buf)@.len()),
        decreases spec_pad4(old(buf)@.len() as int) - buf@.len(),
    {
        proof {
            lemma_pad4(old(buf)@.len() as int);
            if buf@.len() == spec_pad4(old(buf)@.len() as int) {
                assert(buf@.len() % 4 == 0);
            }
        }
        buf.push(0);
        assert(buf@ =~= old(buf)@ + spec_zeros(buf@.len() - old(buf)@.len()));
    }
    proof {
        lemma_pad4(old(buf)@.len() as int);
        assert(buf@.len() % 4 == 0);
        assert(buf@.len() == spec_pad4(old(buf)@.len() as int)) by {
            let n0 = old(buf)@.len() as int;
            let m = buf@.len() as int;
            let p = spec_pad4(n0);
            if m < p {
                assert(false) by (nonlinear_arith)
                    requires
                        n0 <= m < p,
                        p == ((n0 + 3) / 4) * 4,
                        m % 4 == 0,
                        n0 >= 0,
                ;
            }
        }
    }
}

} // verus!
