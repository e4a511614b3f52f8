//! Fresh identifiers.

use vstd::prelude::*;

use crate::text::{is_blank, is_white};

verus! {

/// A lower-case hexadecimal digit.
pub open spec fn is_hex(c: char) -> bool {
    '0' <= c <= '9' || 'a' <= c <= 'f'
}

/// A version 7 UUID in hyphenated lower-case notation.
pub open spec fn is_uuid(s: Seq<char>) -> bool {
    &&& s.len() == 36
    &&& s[14] == '7'
    &&& forall|i: int|
        0 <= i < 36 ==> (if i == 8 || i == 13 || i == 18 || i == 23 {
            #[trigger] s[i] == '-'
        } else {
            is_hex(s[i])
        })
}

/// `uuid::Uuid::now_v7` and its `to_string`: an identifier from the clock and a
/// random number, of which only the notation is known.
///
/// Left unsaid: that no two calls return the same one. The call panics where the
/// clock stands before 1970 or the system has no random bytes.
#[verifier::external_body]
pub(crate) fn fresh_id() -> (r: String)
    ensures
        is_uuid(r@),
{
    uuid::Uuid::now_v7().to_string()
}

/// A fresh identifier is not blank.
pub proof fn lemma_uuid_not_blank(s: Seq<char>)
    requires
        is_uuid(s),
    ensures
        !is_blank(s),
        s.len() > 0,
{
    assert(!is_white(s[14]));
}

} // verus!
