//! ASCII byte sequences and their reading as text.
//!
//! The escaped forms this crate produces are ASCII throughout, so they can
//! be read back as text one character per byte.

use vstd::prelude::*;

verus! {

/// Whether every byte of the sequence is ASCII.
pub open spec fn all_ascii(b: Seq<u8>) -> bool {
    forall|i: int| 0 <= i < b.len() ==> b[i] < 0x80
}

/// The text whose characters are the given ASCII bytes, one for one.
pub open spec fn ascii_chars(b: Seq<u8>) -> Seq<char> {
    Seq::new(b.len(), |i: int| b[i] as char)
}

/// Relies on `String::from_utf8`: a byte vector that is valid UTF-8 becomes
/// the string those bytes encode, and ASCII bytes encode one character
/// each, of equal value.
#[verifier::external_body]
pub(crate) fn ascii_to_string(v: Vec<u8>) -> (r: String)
    requires
        all_ascii(v@),
    ensures
        r@ == ascii_chars(v@),
{
    match String::from_utf8(v) {
        Ok(s) => s,
        Err(_) => String::new(),
    }
}

} // verus!
