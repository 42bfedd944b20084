//! Time as the captcha store sees it: milliseconds since the Unix epoch, and
//! the fixed window in which a captcha can be answered.

use vstd::prelude::*;

verus! {

/// How long a captcha can be answered: thirty minutes, in milliseconds.
pub const TTL_MILLIS: i64 = 1_800_000;

/// Whether something created at `created_at` has expired at `now`: more than
/// the time to live has passed since.
pub open spec fn is_expired(created_at: int, now: int) -> bool {
    now - created_at > TTL_MILLIS as int
}

/// Decides expiry from two instants, both in milliseconds since the epoch.
pub fn expired_between(created_at: i64, now: i64) -> (expired: bool)
    ensures
        expired == is_expired(created_at as int, now as int),
{
    now as i128 - created_at as i128 > TTL_MILLIS as i128
}

/// Reads the wall clock through `chrono::Utc::now` and converts the instant
/// with `DateTime::timestamp_millis`. Nothing is claimed of the value: it is
/// whatever the system clock says. `Utc::now` panics if the system clock is
/// set before 1970.
#[verifier::external_body]
pub(crate) fn now_millis() -> i64 {
    chrono::Utc::now().timestamp_millis()
}

/// The text in which `chrono` writes the instant that lies `millis`
/// milliseconds after the Unix epoch, date and time of day in UTC, or `None`
/// for an instant beyond the years that `chrono` can express.
pub uninterp spec fn instant_text(millis: int) -> Option<Seq<char>>;

/// Makes the instant with `chrono::DateTime::from_timestamp_millis`, which
/// gives `None` for a count of milliseconds out of its range, and writes it
/// with the `Display` of `DateTime<Utc>`: the date, the time of day and
/// `UTC`, which depend on the instant alone.
#[verifier::external_body]
pub(crate) fn print_instant(millis: i64) -> (text: Option<String>)
    ensures
        match text {
            Some(written) => instant_text(millis as int) == Some(written@),
            None => instant_text(millis as int) is None,
        },
{
    match chrono::DateTime::from_timestamp_millis(millis) {
        Some(instant) => Some(instant.to_string()),
        None => None,
    }
}

} // verus!
