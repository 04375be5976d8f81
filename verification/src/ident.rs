//! Fresh identifiers for new rows.

use vstd::prelude::*;

verus! {

/// Whether `c` is a digit of lower-case hexadecimal.
pub open spec fn is_lower_hex(c: char) -> bool {
    ('0' <= c && c <= '9') || ('a' <= c && c <= 'f')
}

/// The shape of a random (version 4) UUID written in its hyphenated
/// lower-case form: 36 characters, hyphens after the groups of 8, 4, 4 and 4
/// hexadecimal digits, the version digit `4`, and a variant digit among
/// `8`, `9`, `a`, `b`.
pub open spec fn is_random_uuid_text(s: Seq<char>) -> bool {
    &&& s.len() == 36
    &&& forall|i: int|
        0 <= i < 36 ==> if i == 8 || i == 13 || i == 18 || i == 23 {
            #[trigger] s[i] == '-'
        } else {
            is_lower_hex(s[i])
        }
    &&& s[14] == '4'
    &&& (s[19] == '8' || s[19] == '9' || s[19] == 'a' || s[19] == 'b')
}

/// `Uuid::new_v4` of the uuid crate, displayed: a random UUID of version 4
/// and the RFC variant in the hyphenated lower-case form. Two calls are not
/// promised to differ.
#[verifier::external_body]
pub(crate) fn random_uuid_text() -> (id: String)
    ensures
        is_random_uuid_text(id@),
{
    uuid::Uuid::new_v4().to_string()
}

/// A fresh identifier for a new row.
pub fn new_id() -> (id: String)
    ensures
        is_random_uuid_text(id@),
{
    random_uuid_text()
}

} // verus!
