//! Little-endian field helpers shared by the payload codecs.

use vstd::prelude::*;
use vstd::bytes::*;
use vstd::slice::*;

verus! {

broadcast use vstd::seq_lib::group_seq_properties, vstd::slice::group_slice_axioms;

/// Little-endian encoding of a `u16`.
pub open spec fn le16(x: u16) -> Seq<u8> {
    spec_u16_to_le_bytes(x)
}

/// Little-endian encoding of a `u32`.
pub open spec fn le32(x: u32) -> Seq<u8> {
    spec_u32_to_le_bytes(x)
}

/// Little-endian two's-complement encoding of an `i32`.
pub open spec fn le_i32(x: i32) -> Seq<u8> {
    spec_u32_to_le_bytes(x as u32)
}

/// The `u16` whose little-endian encoding is the two bytes `s`.
pub open spec fn from_le16(s: Seq<u8>) -> u16 {
    spec_u16_from_le_bytes(s)
}

/// The `u32` whose little-endian encoding is the four bytes `s`.
pub open spec fn from_le32(s: Seq<u8>) -> u32 {
    spec_u32_from_le_bytes(s)
}

/// The `i32` whose little-endian encoding is the four bytes `s`.
pub open spec fn from_le_i32(s: Seq<u8>) -> i32 {
    spec_u32_from_le_bytes(s) as i32
}

/// Encodings have fixed widths and decode back to the value encoded.
pub broadcast proof fn lemma_le16(x: u16)
    ensures
        #[trigger] le16(x).len() == 2,
        from_le16(le16(x)) == x,
{
    lemma_auto_spec_u16_to_from_le_bytes();
    assert(spec_u16_to_le_bytes(x).len() == 2);
}

/// Encodings have fixed widths and decode back to the value encoded.
pub broadcast proof fn lemma_le32(x: u32)
    ensures
        #[trigger] le32(x).len() == 4,
        from_le32(le32(x)) == x,
{
    lemma_auto_spec_u32_to_from_le_bytes();
    assert(spec_u32_to_le_bytes(x).len() == 4);
}

/// Encodings have fixed widths and decode back to the value encoded.
pub broadcast proof fn lemma_le_i32(x: i32)
    ensures
        #[trigger] le_i32(x).len() == 4,
        from_le_i32(le_i32(x)) == x,
{
    lemma_auto_spec_u32_to_from_le_bytes();
    assert(spec_u32_to_le_bytes(x as u32).len() == 4);
    assert(((x as u32) as i32) == x) by (bit_vector);
}

/// Two bytes are the encoding of the value they decode to.
pub broadcast proof fn lemma_from_le16(s: Seq<u8>)
    requires
        s.len() == 2,
    ensures
        #[trigger] le16(from_le16(s)) == s,
{
    lemma_auto_spec_u16_to_from_le_bytes();
}

/// Four bytes are the encoding of the value they decode to.
pub broadcast proof fn lemma_from_le32(s: Seq<u8>)
    requires
        s.len() == 4,
    ensures
        #[trigger] le32(from_le32(s)) == s,
{
    lemma_auto_spec_u32_to_from_le_bytes();
}

/// Four bytes are the encoding of the signed value they decode to.
pub broadcast proof fn lemma_from_le_i32(s: Seq<u8>)
    requires
        s.len() == 4,
    ensures
        #[trigger] le_i32(from_le_i32(s)) == s,
{
    lemma_auto_spec_u32_to_from_le_bytes();
    let x = spec_u32_from_le_bytes(s);
    assert(((x as i32) as u32) == x) by (bit_vector);
}

pub broadcast group group_le {
    lemma_le16,
    lemma_le32,
    lemma_le_i32,
    lemma_from_le16,
    lemma_from_le32,
    lemma_from_le_i32,
}

pub fn push_u16(v: &mut Vec<u8>, x: u16)
    ensures
        final(v)@ == old(v)@ + le16(x),
{
    let b = u16_to_le_bytes(x);
    v.push(b[0]);
    v.push(b[1]);
    assert(final(v)@ =~= old(v)@ + le16(x));
}

pub fn push_u32(v: &mut Vec<u8>, x: u32)
    ensures
        final(v)@ == old(v)@ + le32(x),
{
    let b = u32_to_le_bytes(x);
    v.push(b[0]);
    v.push(b[1]);
    v.push(b[2]);
    v.push(b[3]);
    assert(final(v)@ =~= old(v)@ + le32(x));
}

pub fn push_i32(v: &mut Vec<u8>, x: i32)
    ensures
        final(v)@ == old(v)@ + le_i32(x),
{
    push_u32(v, x as u32);
}

pub fn push_slice(v: &mut Vec<u8>, s: &[u8])
    ensures
        final(v)@ == old(v)@ + s@,
{
    let mut i: usize = 0;
    while i < s.len()
        invariant
            i <= s@.len(),
            v@ == old(v)@ + s@.take(i as int),
        decreases s@.len() - i,
    {
        v.push(s[i]);
        i = i + 1;
        assert(v@ =~= old(v)@ + s@.take(i as int));
    }
    assert(s@.take(s@.len() as int) =~= s@);
}

pub fn read_u16(p: &[u8], pos: usize) -> (r: u16)
    requires
        pos + 2 <= p@.len(),
    ensures
        r == from_le16(p@.subrange(pos as int, pos + 2)),
{
    assert(p@.len() == p.len());
    u16_from_le_bytes(slice_subrange(p, pos, pos + 2))
}

pub fn read_u32(p: &[u8], pos: usize) -> (r: u32)
    requires
        pos + 4 <= p@.len(),
    ensures
        r == from_le32(p@.subrange(pos as int, pos + 4)),
{
    assert(p@.len() == p.len());
    u32_from_le_bytes(slice_subrange(p, pos, pos + 4))
}

pub fn read_i32(p: &[u8], pos: usize) -> (r: i32)
    requires
        pos + 4 <= p@.len(),
    ensures
        r == from_le_i32(p@.subrange(pos as int, pos + 4)),
{
    read_u32(p, pos) as i32
}

/// Copies `src` over the start of `out`, leaving the rest of `out` as it was.
pub fn copy_prefix(out: &mut [u8], src: &[u8])
    requires
        src@.len() <= old(out)@.len(),
    ensures
        final(out)@ == src@ + old(out)@.skip(src@.len() as int),
{
    let mut i: usize = 0;
    while i < src.len()
        invariant
            i <= src@.len(),
            src@.len() <= out@.len(),
            out@.len() == old(out)@.len(),
            out@ == src@.take(i as int) + old(out)@.skip(i as int),
        decreases src@.len() - i,
    {
        out[i] = src[i];
        i = i + 1;
        assert(out@ =~= src@.take(i as int) + old(out)@.skip(i as int));
    }
    assert(src@.take(src@.len() as int) =~= src@);
}

/// Copies `src` into `out` starting at `pos`, leaving every other byte of `out` as it was.
pub fn copy_at(out: &mut [u8], pos: usize, src: &[u8])
    requires
        pos + src@.len() <= old(out)@.len(),
    ensures
        final(out)@ == old(out)@.take(pos as int) + src@ + old(out)@.skip(pos + src@.len()),
{
    assert(out@.len() == out.len());
    let mut i: usize = 0;
    while i < src.len()
        invariant
            i <= src@.len(),
            pos + src@.len() <= out@.len(),
            out@.len() <= usize::MAX,
            out@.len() == old(out)@.len(),
            out@ == old(out)@.take(pos as int) + src@.take(i as int) + old(out)@.skip(pos + i),
        decreases src@.len() - i,
    {
        out[pos + i] = src[i];
        i = i + 1;
        assert(out@ =~= old(out)@.take(pos as int) + src@.take(i as int) + old(out)@.skip(pos + i));
    }
    assert(src@.take(src@.len() as int) =~= src@);
}

} // verus!
