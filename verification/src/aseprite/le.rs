//! Little-endian reading and writing of the integer fields of the binary formats.
use vstd::bytes::*;
use vstd::prelude::*;
use vstd::slice::slice_subrange;

verus! {

broadcast use vstd::seq_lib::group_seq_properties;

/// The `u16` stored little-endian at byte `p` of `b`.
pub open spec fn u16_at(b: Seq<u8>, p: int) -> u16 {
    spec_u16_from_le_bytes(b.subrange(p, p + 2))
}

/// The `u32` stored little-endian at byte `p` of `b`.
pub open spec fn u32_at(b: Seq<u8>, p: int) -> u32 {
    spec_u32_from_le_bytes(b.subrange(p, p + 4))
}

/// The `i16` stored little-endian (two's complement) at byte `p` of `b`.
pub open spec fn i16_at(b: Seq<u8>, p: int) -> i16 {
    u16_at(b, p) as i16
}

/// The `i32` stored little-endian (two's complement) at byte `p` of `b`.
pub open spec fn i32_at(b: Seq<u8>, p: int) -> i32 {
    u32_at(b, p) as i32
}

/// The two little-endian bytes of `v`.
pub open spec fn u16_bytes(v: u16) -> Seq<u8> {
    spec_u16_to_le_bytes(v)
}

/// The four little-endian bytes of `v`.
pub open spec fn u32_bytes(v: u32) -> Seq<u8> {
    spec_u32_to_le_bytes(v)
}

/// The two little-endian bytes of `v`.
pub open spec fn i16_bytes(v: i16) -> Seq<u8> {
    spec_u16_to_le_bytes(v as u16)
}

/// The four little-endian bytes of `v`.
pub open spec fn i32_bytes(v: i32) -> Seq<u8> {
    spec_u32_to_le_bytes(v as u32)
}

/// Reads the `u8` at `pos`, or `None` past the end.
pub fn read_u8(bytes: &[u8], pos: usize) -> (r: Option<u8>)
    ensures
        pos < bytes@.len() ==> r == Some(bytes@[pos as int]),
        pos >= bytes@.len() ==> r is None,
{
    if pos < bytes.len() {
        Some(bytes[pos])
    } else {
        None
    }
}

/// Reads the little-endian `u16` at `pos`, or `None` when fewer than two bytes are left.
pub fn read_u16(bytes: &[u8], pos: usize) -> (r: Option<u16>)
    ensures
        pos + 2 <= bytes@.len() ==> r == Some(u16_at(bytes@, pos as int)),
        pos + 2 > bytes@.len() ==> r is None,
        bytes@.len() <= usize::MAX,
{
    if pos <= bytes.len() && bytes.len() - pos >= 2 {
        let s = slice_subrange(bytes, pos, pos + 2);
        Some(u16_from_le_bytes(s))
    } else {
        None
    }
}

/// Reads the little-endian `u32` at `pos`, or `None` when fewer than four bytes are left.
pub fn read_u32(bytes: &[u8], pos: usize) -> (r: Option<u32>)
    ensures
        pos + 4 <= bytes@.len() ==> r == Some(u32_at(bytes@, pos as int)),
        pos + 4 > bytes@.len() ==> r is None,
        bytes@.len() <= usize::MAX,
{
    if pos <= bytes.len() && bytes.len() - pos >= 4 {
        let s = slice_subrange(bytes, pos, pos + 4);
        Some(u32_from_le_bytes(s))
    } else {
        None
    }
}

/// Reads the little-endian `i16` at `pos`, or `None` when fewer than two bytes are left.
pub fn read_i16(bytes: &[u8], pos: usize) -> (r: Option<i16>)
    ensures
        pos + 2 <= bytes@.len() ==> r == Some(i16_at(bytes@, pos as int)),
        pos + 2 > bytes@.len() ==> r is None,
{
    match read_u16(bytes, pos) {
        Some(v) => Some(v as i16),
        None => None,
    }
}

/// Reads the little-endian `i32` at `pos`, or `None` when fewer than four bytes are left.
pub fn read_i32(bytes: &[u8], pos: usize) -> (r: Option<i32>)
    ensures
        pos + 4 <= bytes@.len() ==> r == Some(i32_at(bytes@, pos as int)),
        pos + 4 > bytes@.len() ==> r is None,
{
    match read_u32(bytes, pos) {
        Some(v) => Some(v as i32),
        None => None,
    }
}

/// Appends the little-endian bytes of `v`.
pub fn write_u16(out: &mut Vec<u8>, v: u16)
    ensures
        final(out)@ == old(out)@ + u16_bytes(v),
{
    let mut b = u16_to_le_bytes(v);
    out.append(&mut b);
}

/// Appends the little-endian bytes of `v`.
pub fn write_u32(out: &mut Vec<u8>, v: u32)
    ensures
        final(out)@ == old(out)@ + u32_bytes(v),
{
    let mut b = u32_to_le_bytes(v);
    out.append(&mut b);
}

/// Appends the little-endian bytes of `v`.
pub fn write_i16(out: &mut Vec<u8>, v: i16)
    ensures
        final(out)@ == old(out)@ + i16_bytes(v),
{
    write_u16(out, v as u16);
}

/// Appends the little-endian bytes of `v`.
pub fn write_i32(out: &mut Vec<u8>, v: i32)
    ensures
        final(out)@ == old(out)@ + i32_bytes(v),
{
    write_u32(out, v as u32);
}

/// Appends all of `bytes`.
pub fn write_bytes(out: &mut Vec<u8>, bytes: &[u8])
    ensures
        final(out)@ == old(out)@ + bytes@,
{
    let mut i: usize = 0;
    let ghost start = out@;
    while i < bytes.len()
        invariant
            i <= bytes@.len(),
            out@ == start + bytes@.subrange(0, i as int),
        decreases bytes@.len() - i,
    {
        out.push(bytes[i]);
        i = i + 1;
        assert(out@ =~= start + bytes@.subrange(0, i as int));
    }
    assert(bytes@.subrange(0, bytes@.len() as int) =~= bytes@);
}

/// Reading back what `write_u16` appended gives the value written.
pub proof fn lemma_u16_roundtrip(pre: Seq<u8>, v: u16, post: Seq<u8>)
    ensures
        u16_at(pre + u16_bytes(v) + post, pre.len() as int) == v,
        u16_bytes(v).len() == 2,
{
    lemma_auto_spec_u16_to_from_le_bytes();
    let b = pre + u16_bytes(v) + post;
    assert(b.subrange(pre.len() as int, pre.len() + 2 as int) =~= u16_bytes(v));
}

/// Reading back what `write_u32` appended gives the value written.
pub proof fn lemma_u32_roundtrip(pre: Seq<u8>, v: u32, post: Seq<u8>)
    ensures
        u32_at(pre + u32_bytes(v) + post, pre.len() as int) == v,
        u32_bytes(v).len() == 4,
{
    lemma_auto_spec_u32_to_from_le_bytes();
    let b = pre + u32_bytes(v) + post;
    assert(b.subrange(pre.len() as int, pre.len() + 4 as int) =~= u32_bytes(v));
}

/// Reading back what `write_i16` appended gives the value written.
pub proof fn lemma_i16_roundtrip(pre: Seq<u8>, v: i16, post: Seq<u8>)
    ensures
        i16_at(pre + i16_bytes(v) + post, pre.len() as int) == v,
        i16_bytes(v).len() == 2,
{
    lemma_u16_roundtrip(pre, v as u16, post);
    assert((v as u16) as i16 == v) by (bit_vector);
}

/// Reading back what `write_i32` appended gives the value written.
pub proof fn lemma_i32_roundtrip(pre: Seq<u8>, v: i32, post: Seq<u8>)
    ensures
        i32_at(pre + i32_bytes(v) + post, pre.len() as int) == v,
        i32_bytes(v).len() == 4,
{
    lemma_u32_roundtrip(pre, v as u32, post);
    assert((v as u32) as i32 == v) by (bit_vector);
}

} // verus!
