//! Fresh random identifiers.

use vstd::prelude::*;

verus! {

/// Whether `c` is a lowercase hexadecimal digit.
pub open spec fn is_lower_hex_digit(c: char) -> bool {
    ('0' <= c && c <= '9') || ('a' <= c && c <= 'f')
}

/// Whether `s` is a UUID in its hyphenated lowercase text form, such as
/// `67e55044-10b1-426f-9247-bb680e5fe0c8`.
pub open spec fn is_uuid_text(s: Seq<char>) -> bool {
    &&& s.len() == 36
    &&& forall|i: int|
        0 <= i < 36 ==> if i == 8 || i == 13 || i == 18 || i == 23 {
            #[trigger] s[i] == '-'
        } else {
            is_lower_hex_digit(s[i])
        }
}

/// A fresh random version-4 UUID as text (`uuid::Uuid::new_v4`, formatted
/// with `Display`).
///
/// Claims only the text form, which `Uuid`'s `Display` documents as the
/// hyphenated lowercase one; nothing is said of which UUID comes back, and
/// two calls may give anything.
#[verifier::external_body]
pub(crate) fn new_uuid_text() -> (s: String)
    ensures
        is_uuid_text(s@),
{
    uuid::Uuid::new_v4().to_string()
}

} // verus!
