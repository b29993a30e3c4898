//! Names for new sessions.
use vstd::prelude::*;

verus! {

pub open spec fn is_hex(c: char) -> bool {
    '0' <= c <= '9' || 'a' <= c <= 'f'
}

/// The form of a random UUID: groups of 8, 4, 4, 4 and 12 lower-case hexadecimal digits between
/// hyphens, with the version digit 4 and a variant digit from 8 to b.
pub open spec fn is_session_id(s: Seq<char>) -> bool {
    &&& s.len() == 36
    &&& forall|i: int|
        0 <= i < 36 ==> if i == 8 || i == 13 || i == 18 || i == 23 {
            #[trigger] s[i] == '-'
        } else {
            is_hex(s[i])
        }
    &&& s[14] == '4'
    &&& s[19] == '8' || s[19] == '9' || s[19] == 'a' || s[19] == 'b'
}

/// `uuid::Uuid::new_v4` and its `Display`: a UUID of version 4 in its hyphenated lower-case form.
/// Chance decides its digits; that no two are alike is not stated. The call needs a source of
/// randomness and does not return without one.
#[verifier::external_body]
pub(crate) fn new_session_id() -> (r: String)
    ensures
        is_session_id(r@),
{
    uuid::Uuid::new_v4().to_string()
}

} // verus!
