//! Creation-time formatting.  A conversation's creation instant arrives as
//! whole seconds since the Unix epoch plus a nanosecond remainder; chrono
//! turns the pair into the usual `YYYY-MM-DD HH:MM:SS UTC` line.

use vstd::prelude::*;

verus! {

/// A creation instant: non-leap seconds since the Unix epoch and the
/// nanoseconds since the last whole second.
#[derive(Clone, Copy, Debug)]
pub struct Timestamp {
    pub secs: i64,
    pub nanos: u32,
}

/// The text chrono prints for the UTC instant `(secs, nanos)`.  The result
/// depends on the two numbers alone.
pub uninterp spec fn spec_utc_time_string(secs: int, nanos: int) -> Seq<char>;

/// Every instant from the epoch to the end of year 9999 formats; see
/// `format_creation_time`.
pub open spec fn spec_time_in_range(ts: Timestamp) -> bool {
    0 <= ts.secs <= 253402300799 && ts.nanos < 1000000000
}

/// Relies on chrono's `DateTime::<Utc>::from_timestamp` and on the `Display`
/// impl of `DateTime<Utc>`: `from_timestamp` returns `Some` whenever the day
/// number lies inside `NaiveDate`'s range and the nanosecond part is a valid
/// time fraction, which covers every instant from the epoch to the end of
/// year 9999; the display text is a fixed function of the instant.
#[verifier::external_body]
fn utc_format(secs: i64, nanos: u32) -> (r: Option<String>)
    ensures
        r matches Some(s) ==> s@ == spec_utc_time_string(secs as int, nanos as int),
        0 <= secs <= 253402300799 && nanos < 1000000000 ==> r is Some,
{
    chrono::DateTime::<chrono::Utc>::from_timestamp(secs, nanos).map(|dt| format!("{}", dt))
}

/// The creation line's time text, if chrono can place the instant on the
/// calendar.  Instants from the epoch through year 9999 always format.
pub fn format_creation_time(ts: &Timestamp) -> (r: Option<String>)
    ensures
        r matches Some(s) ==> s@ == spec_utc_time_string(ts.secs as int, ts.nanos as int),
        spec_time_in_range(*ts) ==> r is Some,
{
    utc_format(ts.secs, ts.nanos)
}

} // verus!
