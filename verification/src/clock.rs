//! The clock of this machine, its time zone, and dates as text.

use chrono::{Offset, TimeZone};
use vstd::prelude::*;

verus! {

/// The last millisecond that the calendar can hold (end of the year 262142).
pub const LAST_MS: i64 = 8_210_266_876_799_999;

/// The first millisecond that the calendar can hold (start of the year -262143).
pub const FIRST_MS: i64 = -8_334_601_228_800_000;

/// Seconds of a day. The local time of every zone is less than that away from UTC.
pub const DAY_SECS: i32 = 86_400;

/// The present moment in Unix epoch ms, by `chrono::Utc::now`.
///
/// Nothing is said of which moment it is. `chrono` counts from the epoch on, and
/// a moment past the end of its calendar does not come back from the call.
#[verifier::external_body]
pub(crate) fn now_ms() -> (r: i64)
    ensures
        0 <= r <= LAST_MS,
{
    chrono::Utc::now().timestamp_millis()
}

/// The present moment as an RFC 3339 text, by `chrono::Utc::now` and
/// `DateTime::to_rfc3339`. Nothing is said of which text it is: it depends on the
/// time alone.
#[verifier::external_body]
pub(crate) fn now_rfc3339() -> (r: String) {
    chrono::Utc::now().to_rfc3339()
}

/// How far the local time of this machine is ahead of UTC at a moment, in seconds, by
/// `chrono::Local` (`TimeZone::timestamp_millis_opt`, `DateTime::offset`).
///
/// Which offset it is depends on the machine's time zone. `chrono` holds none of a day
/// or more.
#[verifier::external_body]
pub(crate) fn local_offset_secs(ms: i64) -> (r: i32)
    requires
        FIRST_MS <= ms <= LAST_MS,
    ensures
        -DAY_SECS < r < DAY_SECS,
{
    chrono::Local.timestamp_millis_opt(ms).unwrap().offset().fix().local_minus_utc()
}

/// ISO 8601 to the millisecond, with the offset behind it.
pub const ISO_PATTERN: &'static str = "%Y-%m-%dT%H:%M:%S%.3f%:z";

/// The date and time of an epoch millisecond as `chrono` formats it by a pattern for a place
/// that is `offset_secs` ahead of UTC; `None` for a moment outside its calendar.
pub uninterp spec fn date_text(ms: i64, offset_secs: i32, pattern: Seq<char>) -> Option<Seq<char>>;

/// `chrono::TimeZone::timestamp_millis_opt` on `chrono::FixedOffset`, then
/// `DateTime::format`. The text depends on the moment, the offset and the pattern alone, and
/// there is one exactly for the moments of the calendar. A pattern that `chrono` cannot read
/// fails the call, so that the only one in use is asked for.
#[verifier::external_body]
pub(crate) fn format_date(ms: i64, offset_secs: i32, pattern: &str) -> (r: Option<String>)
    requires
        -DAY_SECS < offset_secs < DAY_SECS,
        pattern@ == ISO_PATTERN@,
    ensures
        crate::text::opt_text(r) == date_text(ms, offset_secs, pattern@),
        r is Some <==> FIRST_MS <= ms <= LAST_MS,
{
    let zone = chrono::FixedOffset::east_opt(offset_secs).unwrap();
    match zone.timestamp_millis_opt(ms).single() {
        Some(dt) => Some(dt.format(pattern).to_string()),
        None => None,
    }
}

} // verus!
