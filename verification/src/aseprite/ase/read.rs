//! Reading positions of an Aseprite file.  A reader position may lie past
//! the end of the data after a seek; every read from such a position fails,
//! so all such positions are represented by the one just after the end.
use vstd::prelude::*;
use vstd::slice::{slice_subrange, slice_to_vec};
use vstd::utf8::*;
use crate::aseprite::le;
use crate::aseprite::le::read_u16;
use crate::aseprite::text::string_from_utf8;

verus! {

broadcast use vstd::seq_lib::group_seq_properties;

/// The position `n` bytes after `p`: a seek, which may go past the end.
pub open spec fn seek(b: Seq<u8>, p: int, n: int) -> int {
    if p + n > b.len() {
        b.len() + 1int
    } else {
        p + n
    }
}

/// The `n` bytes at `p`, and the position after them.  Reading no bytes
/// succeeds anywhere, also past the end.
pub open spec fn bytes_at(b: Seq<u8>, p: int, n: int) -> Option<(Seq<u8>, int)> {
    if 0 <= p && n == 0 {
        Some((Seq::empty(), p))
    } else if 0 <= p && 0 <= n && p + n <= b.len() {
        Some((b.subrange(p, p + n), p + n))
    } else {
        None
    }
}

/// A UTF-8 string prefixed by its byte length as a `u16`, at `p`, and the
/// position after it.
pub open spec fn string16_at(b: Seq<u8>, p: int) -> Option<(Seq<char>, int)> {
    if 0 <= p && p + 2 <= b.len() {
        match bytes_at(b, p + 2, le::u16_at(b, p) as int) {
            None => None,
            Some((raw, q)) => if valid_utf8(raw) {
                Some((decode_utf8(raw), q))
            } else {
                None
            },
        }
    } else {
        None
    }
}

/// Moves `pos` on by `n` bytes (see [`seek`]).
pub fn skip(bytes: &[u8], pos: usize, n: usize) -> (r: usize)
    requires
        pos <= bytes@.len() + 1,
        bytes@.len() < usize::MAX,
    ensures
        r == seek(bytes@, pos as int, n as int),
        r <= bytes@.len() + 1,
{
    if pos > bytes.len() || n > bytes.len() - pos {
        bytes.len() + 1
    } else {
        pos + n
    }
}

/// The `n` bytes at `pos`.
pub fn read_bytes(bytes: &[u8], pos: usize, n: usize) -> (r: Option<(Vec<u8>, usize)>)
    ensures
        match r {
            Some((v, q)) => bytes_at(bytes@, pos as int, n as int) == Some((v@, q as int))
                && (q <= bytes@.len() || (n == 0 && q == pos)),
            None => bytes_at(bytes@, pos as int, n as int) is None,
        },
{
    if n == 0 {
        let v: Vec<u8> = Vec::new();
        return Some((v, pos));
    }
    if pos > bytes.len() || n > bytes.len() - pos {
        return None;
    }
    let v = slice_to_vec(slice_subrange(bytes, pos, pos + n));
    Some((v, pos + n))
}

/// `N` bytes at `pos`, as an array.
pub fn read_array<const N: usize>(bytes: &[u8], pos: usize) -> (r: Option<([u8; N], usize)>)
    ensures
        match r {
            Some((a, q)) => bytes_at(bytes@, pos as int, N as int) == Some((a@, q as int))
                && q <= bytes@.len(),
            None => pos + N > bytes@.len(),
        },
{
    if pos > bytes.len() || N > bytes.len() - pos {
        return None;
    }
    let mut a: [u8; N] = [0u8; N];
    let mut i: usize = 0;
    while i < N
        invariant
            i <= N,
            pos + N <= bytes@.len(),
            bytes@.len() == bytes.len(),
            a@.len() == N,
            forall|j: int| 0 <= j < i ==> a@[j] == bytes@[pos + j],
        decreases N - i,
    {
        a[i] = bytes[pos + i];
        i = i + 1;
    }
    assert(a@ =~= bytes@.subrange(pos as int, pos + N));
    Some((a, pos + N))
}

/// A `u16`-length-prefixed UTF-8 string at `pos`.
pub fn read_string16(bytes: &[u8], pos: usize) -> (r: Option<(String, usize)>)
    ensures
        match r {
            Some((s, q)) => string16_at(bytes@, pos as int) == Some((s@, q as int))
                && q <= bytes@.len(),
            None => string16_at(bytes@, pos as int) is None,
        },
{
    let n = match read_u16(bytes, pos) {
        Some(n) => n,
        None => return None,
    };
    let (raw, q) = match read_bytes(bytes, pos + 2, n as usize) {
        Some(r) => r,
        None => return None,
    };
    match string_from_utf8(raw) {
        Some(s) => Some((s, q)),
        None => None,
    }
}

} // verus!
