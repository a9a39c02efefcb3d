//! Calls into code outside this crate, each behind a contract.
use vstd::prelude::*;

verus! {

/// What `str::trim` leaves of a text.
pub uninterp spec fn trimmed(s: Seq<char>) -> Seq<char>;

/// Relies on `str::trim`: the result depends on the text alone, and an
/// empty text stays empty.
#[verifier::external_body]
pub(crate) fn trim_text(s: &str) -> (r: &str)
    ensures
        r@ == trimmed(s@),
        s@.len() == 0 ==> r@.len() == 0,
{
    s.trim()
}

/// Relies on `uuid::Uuid::new_v4` and its `Display`: a fresh random
/// identifier in hyphenated form, 36 characters long.
#[verifier::external_body]
pub(crate) fn new_id() -> (r: String)
    ensures
        r@.len() == 36,
{
    uuid::Uuid::new_v4().to_string()
}

/// Relies on `chrono::Utc::now` and `DateTime::to_rfc3339`: the current time
/// as an RFC 3339 timestamp.
#[verifier::external_body]
pub(crate) fn now_timestamp() -> (r: String)
{
    chrono::Utc::now().to_rfc3339()
}

} // verus!
