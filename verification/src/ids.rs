//! New identifiers, and the time.

use vstd::prelude::*;

verus! {

/// A hexadecimal digit, in lower case.
pub open spec fn is_hex(c: char) -> bool {
    '0' <= c <= '9' || 'a' <= c <= 'f'
}

/// The form of a random identifier: 32 hexadecimal digits, with hyphens at four places.
pub open spec fn uuid_shaped(s: Seq<char>) -> bool {
    &&& s.len() == 36
    &&& s[8] == '-' && s[13] == '-' && s[18] == '-' && s[23] == '-'
    &&& forall|i: int|
        0 <= i < 36 && i != 8 && i != 13 && i != 18 && i != 23 ==> is_hex(#[trigger] s[i])
}

/// `Uuid::new_v4` in its hyphenated form. Which identifier it is depends on chance.
#[verifier::external_body]
pub(crate) fn random_id() -> (r: String)
    ensures
        uuid_shaped(r@),
{
    uuid::Uuid::new_v4().to_string()
}

/// The text tells a time in UTC.
pub open spec fn is_utc_time(s: Seq<char>) -> bool {
    s.len() >= 6 && s.skip(s.len() - 6) == "+00:00"@
}

/// `Utc::now` and `DateTime::to_rfc3339`: the offset comes last, and is that of UTC. Which
/// time it is depends on the clock.
#[verifier::external_body]
pub(crate) fn now_text() -> (r: String)
    ensures
        is_utc_time(r@),
{
    chrono::Utc::now().to_rfc3339()
}

} // verus!
