//! Checks on text carried as bytes.

use vstd::prelude::*;
use vstd::utf8::valid_utf8;

verus! {

/// Whether `bytes` is valid UTF-8, as `std::str::from_utf8` decides it: the
/// standard library documents that it succeeds exactly on valid UTF-8.
#[verifier::external_body]
pub(crate) fn is_utf8(bytes: &[u8]) -> (r: bool)
    ensures
        r == valid_utf8(bytes@),
{
    std::str::from_utf8(bytes).is_ok()
}

/// The text of `bytes` when they are valid UTF-8, and the empty text
/// otherwise, as bytes.
pub open spec fn utf8_or_empty(bytes: Seq<u8>) -> Seq<u8> {
    if valid_utf8(bytes) {
        bytes
    } else {
        Seq::empty()
    }
}

/// Executable form of `utf8_or_empty`: what `String::from_utf8` gives, or
/// an empty string where it fails.
pub fn text_or_empty(bytes: &[u8]) -> (r: Vec<u8>)
    ensures
        r@ == utf8_or_empty(bytes@),
{
    if is_utf8(bytes) {
        let r = crate::wire::copy_range(bytes, 0, bytes.len());
        assert(r@ =~= bytes@);
        r
    } else {
        let r = Vec::new();
        assert(r@ =~= Seq::<u8>::empty());
        r
    }
}

} // verus!
