//! Points in time, as plain integers, and the calls into chrono that read the
//! clock or render a point in time as local calendar text.

use vstd::prelude::*;

verus! {

/// Earliest instant that chrono can represent, in milliseconds since the Unix
/// epoch (January 1 of year -262143, 00:00:00.000 UTC).
pub const STAMP_MIN_MILLIS: i64 = -8_334_601_315_200_000;

/// Latest instant that chrono can represent, in milliseconds since the Unix
/// epoch (December 31 of year 262142, 23:59:59.999 UTC).
pub const STAMP_MAX_MILLIS: i64 = 8_210_266_876_799_999;

/// An absolute instant together with the local offset from UTC that was in
/// force when it was taken.
#[derive(Clone, Copy, Debug, PartialEq, Eq, Structural)]
pub struct Stamp {
    /// Milliseconds since 1970-01-01 00:00:00 UTC.
    pub millis: i64,
    /// Seconds to add to UTC to get local time.
    pub offset_secs: i32,
}

impl Stamp {
    /// The instant lies in chrono's range and the offset is less than a day.
    pub open spec fn wf(self) -> bool {
        &&& STAMP_MIN_MILLIS <= self.millis <= STAMP_MAX_MILLIS
        &&& -86_400 < self.offset_secs < 86_400
    }

    /// Builds a stamp when both parts are in range.
    pub fn new(millis: i64, offset_secs: i32) -> (r: Option<Stamp>)
        ensures
            r == (if (Stamp { millis, offset_secs }).wf() {
                Some(Stamp { millis, offset_secs })
            } else {
                None
            }),
    {
        let s = Stamp { millis, offset_secs };
        if STAMP_MIN_MILLIS <= millis && millis <= STAMP_MAX_MILLIS && -86_400 < offset_secs
            && offset_secs < 86_400 {
            Some(s)
        } else {
            None
        }
    }
}

/// The text `YYYY-MM-DD HH:MM:SS` of the local calendar time at `millis` under
/// the UTC offset `offset_secs`, as chrono renders it.
pub uninterp spec fn local_text(millis: int, offset_secs: int) -> Seq<char>;

/// Relies on chrono's `Local::now`, `DateTime::timestamp_millis` and
/// `FixedOffset::local_minus_utc`: the current instant and the local offset.
/// A `DateTime` holds an instant between `DateTime::<Utc>::MIN_UTC` and
/// `MAX_UTC`, and `FixedOffset` keeps its offset strictly within one day.
#[verifier::external_body]
pub(crate) fn now_stamp() -> (r: Stamp)
    ensures
        r.wf(),
{
    let now = chrono::Local::now();
    Stamp { millis: now.timestamp_millis(), offset_secs: now.offset().local_minus_utc() }
}

/// Relies on chrono's `Local::now` and `DateTime::timestamp_millis`: the
/// current instant in milliseconds since the Unix epoch.
#[verifier::external_body]
pub(crate) fn now_millis() -> (r: i64)
    ensures
        STAMP_MIN_MILLIS <= r <= STAMP_MAX_MILLIS,
{
    chrono::Local::now().timestamp_millis()
}

/// Relies on chrono's `DateTime::from_timestamp_millis`, `FixedOffset::east_opt`,
/// `DateTime::with_timezone` and `DateTime::format("%Y-%m-%d %H:%M:%S")`: the
/// local calendar text of the stamp. Both constructors return `Some` on every
/// stamp in range.
#[verifier::external_body]
pub(crate) fn stamp_text(s: Stamp) -> (r: String)
    requires
        s.wf(),
    ensures
        r@ == local_text(s.millis as int, s.offset_secs as int),
{
    let utc = chrono::DateTime::from_timestamp_millis(s.millis).unwrap();
    let offset = chrono::FixedOffset::east_opt(s.offset_secs).unwrap();
    utc.with_timezone(&offset).format("%Y-%m-%d %H:%M:%S").to_string()
}

} // verus!
