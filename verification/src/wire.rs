//! Big-endian integer fields of the coordination wire protocol.
//!
//! Every multi-byte integer on the wire is big-endian.  The spec functions
//! here define those encodings; the exec functions compute them and are
//! proved against the specs.
use vstd::prelude::*;

verus! {

/// The two big-endian bytes of a `u16`.
pub open spec fn spec_u16_be(x: u16) -> Seq<u8> {
    seq![(x / 0x100) as u8, (x % 0x100) as u8]
}

/// The four big-endian bytes of a `u32`.
pub open spec fn spec_u32_be(x: u32) -> Seq<u8> {
    seq![
        (x / 0x1000000) as u8,
        ((x / 0x10000) % 0x100) as u8,
        ((x / 0x100) % 0x100) as u8,
        (x % 0x100) as u8,
    ]
}

/// The eight big-endian bytes of a `u64`.
pub open spec fn spec_u64_be(x: u64) -> Seq<u8> {
    spec_u32_be((x / 0x100000000) as u32) + spec_u32_be((x % 0x100000000) as u32)
}

/// The `u16` read back from two big-endian bytes.
pub open spec fn spec_u16_from_be(s: Seq<u8>) -> u16
    recommends
        s.len() == 2,
{
    (s[0] as u16 * 0x100 + s[1] as u16) as u16
}

/// The `u32` read back from four big-endian bytes.
pub open spec fn spec_u32_from_be(s: Seq<u8>) -> u32
    recommends
        s.len() == 4,
{
    (s[0] as u32 * 0x1000000 + s[1] as u32 * 0x10000 + s[2] as u32 * 0x100 + s[3] as u32) as u32
}

/// The `u64` read back from eight big-endian bytes.
pub open spec fn spec_u64_from_be(s: Seq<u8>) -> u64
    recommends
        s.len() == 8,
{
    (spec_u32_from_be(s.take(4)) as u64 * 0x100000000 + spec_u32_from_be(s.skip(4)) as u64) as u64
}

/// Reading back the bytes of `x` yields `x` again.
pub proof fn lemma_u16_be_round_trip(x: u16)
    ensures
        spec_u16_be(x).len() == 2,
        spec_u16_from_be(spec_u16_be(x)) == x,
{
}

/// Reading back the bytes of `x` yields `x` again.
pub proof fn lemma_u32_be_round_trip(x: u32)
    ensures
        spec_u32_be(x).len() == 4,
        spec_u32_from_be(spec_u32_be(x)) == x,
{
}

/// Reading back the bytes of `x` yields `x` again.
pub proof fn lemma_u64_be_round_trip(x: u64)
    ensures
        spec_u64_be(x).len() == 8,
        spec_u64_from_be(spec_u64_be(x)) == x,
{
    lemma_u32_be_round_trip((x / 0x100000000) as u32);
    lemma_u32_be_round_trip((x % 0x100000000) as u32);
    assert(spec_u64_be(x).take(4) =~= spec_u32_be((x / 0x100000000) as u32));
    assert(spec_u64_be(x).skip(4) =~= spec_u32_be((x % 0x100000000) as u32));
}

/// Append the two big-endian bytes of `x` to `out`.
pub fn push_u16_be(out: &mut Vec<u8>, x: u16)
    ensures
        final(out)@ == old(out)@ + spec_u16_be(x),
{
    out.push((x / 0x100) as u8);
    out.push((x % 0x100) as u8);
    assert(out@ =~= old(out)@ + spec_u16_be(x));
}

/// Append the four big-endian bytes of `x` to `out`.
pub fn push_u32_be(out: &mut Vec<u8>, x: u32)
    ensures
        final(out)@ == old(out)@ + spec_u32_be(x),
{
    out.push((x / 0x1000000) as u8);
    out.push(((x / 0x10000) % 0x100) as u8);
    out.push(((x / 0x100) % 0x100) as u8);
    out.push((x % 0x100) as u8);
    assert(out@ =~= old(out)@ + spec_u32_be(x));
}

/// Append the eight big-endian bytes of `x` to `out`.
pub fn push_u64_be(out: &mut Vec<u8>, x: u64)
    ensures
        final(out)@ == old(out)@ + spec_u64_be(x),
{
    push_u32_be(out, (x / 0x100000000) as u32);
    push_u32_be(out, (x % 0x100000000) as u32);
    assert(out@ =~= old(out)@ + spec_u64_be(x));
}

/// Append all bytes of `src` to `out`.
pub fn push_slice(out: &mut Vec<u8>, src: &[u8])
    ensures
        final(out)@ == old(out)@ + src@,
{
    let n: usize = src.len();
    let mut i: usize = 0;
    while i < n
        invariant
            n == src@.len(),
            i <= n,
            out@ == old(out)@ + src@.take(i as int),
        decreases n - i,
    {
        out.push(src[i]);
        assert(out@ =~= old(out)@ + src@.take(i + 1));
        i = i + 1;
    }
    assert(out@ =~= old(out)@ + src@);
}

/// The bytes of `buf` from `from` (inclusive) to `to` (exclusive), copied out.
pub fn copy_range(buf: &Vec<u8>, from: usize, to: usize) -> (r: Vec<u8>)
    requires
        from <= to <= buf@.len(),
    ensures
        r@ == buf@.subrange(from as int, to as int),
{
    let mut r: Vec<u8> = Vec::new();
    let mut i: usize = from;
    while i < to
        invariant
            from <= i <= to <= buf@.len(),
            r@ == buf@.subrange(from as int, i as int),
        decreases to - i,
    {
        r.push(buf[i]);
        assert(r@ =~= buf@.subrange(from as int, i + 1));
        i = i + 1;
    }
    r
}

/// Read the big-endian `u16` at position `at` of `buf`.
pub fn read_u16_be(buf: &Vec<u8>, at: usize) -> (x: u16)
    requires
        at + 2 <= buf@.len(),
    ensures
        x == spec_u16_from_be(buf@.subrange(at as int, at + 2)),
{
    let n: usize = buf.len();
    let b0 = buf[at];
    let b1 = buf[at + 1];
    let s = Ghost(buf@.subrange(at as int, at + 2));
    assert(s@[0] == b0 && s@[1] == b1);
    b0 as u16 * 0x100 + b1 as u16
}

/// Read the big-endian `u32` at position `at` of `buf`.
pub fn read_u32_be(buf: &Vec<u8>, at: usize) -> (x: u32)
    requires
        at + 4 <= buf@.len(),
    ensures
        x == spec_u32_from_be(buf@.subrange(at as int, at + 4)),
{
    let n: usize = buf.len();
    let b0 = buf[at];
    let b1 = buf[at + 1];
    let b2 = buf[at + 2];
    let b3 = buf[at + 3];
    let s = Ghost(buf@.subrange(at as int, at + 4));
    assert(s@[0] == b0 && s@[1] == b1 && s@[2] == b2 && s@[3] == b3);
    b0 as u32 * 0x1000000 + b1 as u32 * 0x10000 + b2 as u32 * 0x100 + b3 as u32
}

/// Read the big-endian `u64` at position `at` of `buf`.
pub fn read_u64_be(buf: &Vec<u8>, at: usize) -> (x: u64)
    requires
        at + 8 <= buf@.len(),
    ensures
        x == spec_u64_from_be(buf@.subrange(at as int, at + 8)),
{
    let n: usize = buf.len();
    let hi = read_u32_be(buf, at);
    let lo = read_u32_be(buf, at + 4);
    let s = Ghost(buf@.subrange(at as int, at + 8));
    assert(s@.take(4) =~= buf@.subrange(at as int, at + 4));
    assert(s@.skip(4) =~= buf@.subrange(at + 4, at + 8));
    hi as u64 * 0x100000000 + lo as u64
}

} // verus!
