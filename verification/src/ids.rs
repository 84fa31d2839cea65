//! Fresh identifiers.

use vstd::prelude::*;

verus! {

/// Whether a character is one of a hyphenated lower-case UUID.
pub open spec fn is_uuid_char(c: char) -> bool {
    c == '-' || ('0' <= c && c <= '9') || ('a' <= c && c <= 'f')
}

/// Whether a text has the form of a fresh identifier: the characters of a
/// hyphenated lower-case UUID, as many as it has.
pub open spec fn is_uuid(s: Seq<char>) -> bool {
    s.len() == 36 && forall|i: int| 0 <= i < s.len() ==> is_uuid_char(#[trigger] s[i])
}

/// Calls `uuid::Uuid::new_v4`, written out in its hyphenated form. The
/// identifier is random: two calls are not known to differ.
#[verifier::external_body]
pub(crate) fn fresh_id() -> (res: String)
    ensures
        is_uuid(res@),
{
    uuid::Uuid::new_v4().to_string()
}

/// A fresh identifier has thirty-six characters, each a hyphen, a digit or a small
/// letter up to `f`.
pub proof fn law_fresh_ids_are_uuids(s: Seq<char>, i: int)
    requires
        is_uuid(s),
        0 <= i < s.len(),
    ensures
        s.len() == 36,
        s[i] == '-' || '0' <= s[i] <= '9' || 'a' <= s[i] <= 'f',
{
}

} // verus!
