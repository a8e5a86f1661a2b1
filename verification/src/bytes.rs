//! Little-endian integers and byte ranges, as the wire formats use them.

use vstd::prelude::*;

verus! {

/// The four bytes of `x`, least significant first.
pub open spec fn le_bytes(x: u32) -> Seq<u8> {
    seq![
        (x as int % 256) as u8,
        (x as int / 256 % 256) as u8,
        (x as int / 65536 % 256) as u8,
        (x as int / 16777216) as u8,
    ]
}

/// The little-endian bytes of every integer of `ints`, in order.
pub open spec fn le_bytes_of(ints: Seq<u32>) -> Seq<u8>
    decreases ints.len(),
{
    if ints.len() == 0 {
        Seq::empty()
    } else {
        le_bytes_of(ints.drop_last()) + le_bytes(ints.last())
    }
}

/// The value of the four bytes that start at `at`, read least significant first.
pub open spec fn le_u32(b: Seq<u8>, at: int) -> int {
    b[at] as int + 256 * (b[at + 1] as int) + 65536 * (b[at + 2] as int) + 16777216 * (
    b[at + 3] as int)
}

/// The value of the two bytes that start at `at`, read least significant first.
pub open spec fn le_u16(b: Seq<u8>, at: int) -> int {
    b[at] as int + 256 * (b[at + 1] as int)
}

/// The four digits of a number written in base 256 are read back by
/// division and remainder.
pub proof fn lemma_le_digits(b0: int, b1: int, b2: int, b3: int)
    requires
        0 <= b0 < 256,
        0 <= b1 < 256,
        0 <= b2 < 256,
        0 <= b3 < 256,
    ensures
        ({
            let x = b0 + 256 * b1 + 65536 * b2 + 16777216 * b3;
            &&& 0 <= x < 0x1_0000_0000
            &&& x % 256 == b0
            &&& x / 256 % 256 == b1
            &&& x / 65536 % 256 == b2
            &&& x / 16777216 == b3
        }),
{
    let x = b0 + 256 * b1 + 65536 * b2 + 16777216 * b3;
    let h1 = b1 + 256 * b2 + 65536 * b3;
    let h2 = b2 + 256 * b3;
    assert(x == b0 + 256 * h1);
    assert(x / 256 == h1);
    assert(x == b0 + 256 * b1 + 65536 * h2);
    assert(x / 65536 == h2);
    assert(x / 16777216 == b3);
}

/// Writing out the integer read from four bytes gives those bytes.
pub proof fn lemma_le_bytes_of_read(b: Seq<u8>, at: int)
    requires
        0 <= at,
        at + 4 <= b.len(),
    ensures
        0 <= le_u32(b, at) < 0x1_0000_0000,
        le_bytes(le_u32(b, at) as u32) == b.subrange(at, at + 4),
{
    lemma_le_digits(b[at] as int, b[at + 1] as int, b[at + 2] as int, b[at + 3] as int);
    let x = le_u32(b, at) as u32;
    let w = le_bytes(x);
    let s = b.subrange(at, at + 4);
    assert(w.len() == 4);
    assert(w[0] == s[0]);
    assert(w[1] == s[1]);
    assert(w[2] == s[2]);
    assert(w[3] == s[3]);
    assert(w =~= s);
}

/// The bytes of a list of integers are four per integer.
pub proof fn lemma_le_bytes_of_len(ints: Seq<u32>)
    ensures
        le_bytes_of(ints).len() == 4 * ints.len(),
    decreases ints.len(),
{
    if ints.len() > 0 {
        lemma_le_bytes_of_len(ints.drop_last());
    }
}

/// Reads a 32-bit little-endian integer at `at`.
pub fn read_u32(b: &[u8], at: usize) -> (x: u32)
    requires
        at + 4 <= b@.len(),
    ensures
        x as int == le_u32(b@, at as int),
{
    let b0: u32 = b[at] as u32;
    let b1: u32 = b[at + 1] as u32;
    let b2: u32 = b[at + 2] as u32;
    let b3: u32 = b[at + 3] as u32;
    b0 + 256 * b1 + 65536 * b2 + 16777216 * b3
}

/// Reads a 16-bit little-endian integer at `at`.
pub fn read_u16(b: &[u8], at: usize) -> (x: u16)
    requires
        at + 2 <= b@.len(),
    ensures
        x as int == le_u16(b@, at as int),
{
    let b0: u16 = b[at] as u16;
    let b1: u16 = b[at + 1] as u16;
    b0 + 256 * b1
}

/// Appends the four little-endian bytes of `x` to `out`.
pub fn push_u32(out: &mut Vec<u8>, x: u32)
    ensures
        final(out)@ == old(out)@ + le_bytes(x),
{
    out.push((x % 256) as u8);
    out.push((x / 256 % 256) as u8);
    out.push((x / 65536 % 256) as u8);
    out.push((x / 16777216) as u8);
    assert(out@ =~= old(out)@ + le_bytes(x));
}

/// Appends a copy of `src[start..end]` to `out`.
pub fn push_range(out: &mut Vec<u8>, src: &[u8], start: usize, end: usize)
    requires
        start <= end <= src@.len(),
    ensures
        final(out)@ == old(out)@ + src@.subrange(start as int, end as int),
{
    let mut i: usize = start;
    while i < end
        invariant
            start <= i <= end <= src@.len(),
            out@ == old(out)@ + src@.subrange(start as int, i as int),
        decreases end - i,
    {
        out.push(src[i]);
        i += 1;
        assert(out@ =~= old(out)@ + src@.subrange(start as int, i as int));
    }
    assert(out@ =~= old(out)@ + src@.subrange(start as int, end as int));
}

/// A copy of `src[start..end]`.
pub fn copy_range(src: &[u8], start: usize, end: usize) -> (out: Vec<u8>)
    requires
        start <= end <= src@.len(),
    ensures
        out@ == src@.subrange(start as int, end as int),
{
    let mut out: Vec<u8> = Vec::new();
    push_range(&mut out, src, start, end);
    assert(out@ =~= src@.subrange(start as int, end as int));
    out
}

} // verus!
