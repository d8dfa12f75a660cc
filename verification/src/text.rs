//! Shared byte/text conversions.

use vstd::prelude::*;

verus! {

/// The characters of a byte sequence read as ASCII.
pub open spec fn bytes_ascii_chars(b: Seq<u8>) -> Seq<char> {
    Seq::new(b.len(), |i: int| b[i] as char)
}

/// Relies on String::from_utf8: ASCII bytes are valid UTF-8 and decode to
/// themselves, character for character.  Of other byte sequences nothing is
/// promised; the call cannot fail or panic.
#[verifier::external_body]
pub fn bytes_to_string(v: Vec<u8>) -> (r: String)
    ensures
        (forall|i: int| 0 <= i < v@.len() ==> v@[i] < 128) ==> r@ == bytes_ascii_chars(v@),
{
    String::from_utf8(v).unwrap_or_default()
}

} // verus!
