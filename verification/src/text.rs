//! Permissive text decoding for the protocol's string fields.

use vstd::prelude::*;

verus! {

/// The characters that permissive UTF-8 decoding yields for a byte sequence:
/// well-formed sequences decode as usual, ill-formed ones are replaced.
pub uninterp spec fn lossy_decoded(bytes: Seq<u8>) -> Seq<char>;

/// Relies on String::from_utf8_lossy: permissive UTF-8 decoding, a pure
/// function of the bytes alone; invalid sequences are replaced with the
/// replacement character, never rejected.
#[verifier::external_body]
pub(crate) fn from_utf8_lossy(bytes: &Vec<u8>) -> (r: String)
    ensures
        r@ == lossy_decoded(bytes@),
{
    String::from_utf8_lossy(bytes.as_slice()).into_owned()
}

} // verus!
