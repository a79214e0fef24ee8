//! Text fields of the binary formats: UTF-8 names.
use vstd::prelude::*;
use vstd::utf8::*;

verus! {

/// Calls `String::from_utf8`.  Its documentation promises `Ok` exactly when
/// the bytes are well-formed UTF-8, holding the string those bytes encode;
/// the contract states that over vstd's model of UTF-8.
#[verifier::external_body]
pub(crate) fn string_from_utf8(bytes: Vec<u8>) -> (r: Option<String>)
    ensures
        r is Some <==> valid_utf8(bytes@),
        r matches Some(s) ==> s@ == decode_utf8(bytes@),
{
    String::from_utf8(bytes).ok()
}

/// The UTF-8 bytes of a string.
pub fn string_bytes(s: &String) -> (r: &[u8])
    ensures
        r@ == encode_utf8(s@),
{
    s.as_str().as_bytes()
}

} // verus!
