//! Identifiers and timestamps, as the outside world hands them out.

use crate::event::Timestamp;
use vstd::prelude::*;

verus! {

/// Whether `c` is a digit of Crockford's base 32: a decimal digit or an
/// upper-case letter other than I, L, O and U.
pub open spec fn is_base32_digit(c: char) -> bool {
    ('0' <= c <= '9') || ('A' <= c <= 'Z' && c != 'I' && c != 'L' && c != 'O' && c != 'U')
}

/// Whether a text has the form of a ULID: 26 digits of Crockford's base 32.
pub open spec fn is_ulid(id: Seq<char>) -> bool {
    &&& id.len() == 26
    &&& forall|i: int| 0 <= i < id.len() ==> is_base32_digit(#[trigger] id[i])
}

/// Makes a new identifier with `ulid::Ulid::new` and writes it out with
/// `Ulid::to_string`.
///
/// Trusted: the identifier is made from the clock and from random bits, so
/// only its form is stated: 26 digits of Crockford's base 32.
#[verifier::external_body]
pub(crate) fn fresh_id() -> (id: String)
    ensures
        is_ulid(id@),
{
    ulid::Ulid::new().to_string()
}

/// Reads the clock with `chrono::Utc::now`.
///
/// Trusted: the time is whatever the system clock says, counted from the
/// Unix epoch, with the nanoseconds below one second.
#[verifier::external_body]
pub(crate) fn now_utc() -> (now: Timestamp)
    ensures
        now.secs >= 0,
        now.nanos < 1_000_000_000,
{
    let now = chrono::Utc::now();
    Timestamp { secs: now.timestamp(), nanos: now.timestamp_subsec_nanos() }
}

} // verus!
