//! Viewing ASCII byte buffers as string slices.

use vstd::prelude::*;

verus! {

/// Holds when every byte of `s` is ASCII.
pub open spec fn ascii_bytes(s: Seq<u8>) -> bool {
    forall|i: int| 0 <= i < s.len() ==> s[i] < 128
}

/// The characters that an ASCII byte sequence spells.
pub open spec fn chars_of_bytes(s: Seq<u8>) -> Seq<char> {
    s.map_values(|b: u8| b as char)
}

/// Relies on `core::str::from_utf8`: ASCII bytes are valid UTF-8, so the call
/// returns `Ok`, and each byte decodes to the character with the same code.
#[verifier::external_body]
pub fn ascii_to_str(b: &[u8]) -> (r: &str)
    requires
        ascii_bytes(b@),
    ensures
        r@ == chars_of_bytes(b@),
{
    core::str::from_utf8(b).unwrap()
}

} // verus!
