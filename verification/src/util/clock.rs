//! The local wall clock and the texts the crate stamps with it.
//!
//! A reading of the clock is held as plain numbers: the instant (seconds and
//! nanoseconds since the Unix epoch, UTC) and the local offset from UTC in force
//! at that instant. Formatting a reading is then a function of the reading and
//! the layout alone.

use vstd::prelude::*;

verus! {

/// One reading of the local clock.
#[derive(Debug, Clone, Copy)]
pub struct ClockReading {
    /// Whole seconds since 1970-01-01T00:00:00 UTC.
    pub utc_secs: i64,
    /// Nanoseconds past `utc_secs`.
    pub utc_nanos: u32,
    /// The local time's offset from UTC, in seconds east of Greenwich.
    pub offset_secs: i32,
}

/// The last second that chrono's calendar holds: 262142-12-31T23:59:59 UTC.
pub open spec fn last_clock_second() -> int {
    8210266876799
}

/// The readings the local clock can give: at or after the Unix epoch, within
/// chrono's calendar, with a sub-second part below one second and an offset of
/// less than a day.
pub open spec fn reading_in_range(t: ClockReading) -> bool {
    &&& 0 <= t.utc_secs <= last_clock_second()
    &&& t.utc_nanos < 1_000_000_000
    &&& -86_400 < t.offset_secs < 86_400
}

/// Layout of the directory that holds a day's logs: `YYYY/MM/DD`.
pub open spec fn date_dir_layout() -> Seq<char> {
    "%Y/%m/%d"@
}

/// Layout of the timestamp that starts a log file's name: `YYYYMMDDTHHMMSS`.
pub open spec fn file_stamp_layout() -> Seq<char> {
    "%Y%m%dT%H%M%S"@
}

/// Layout of the timestamp written into a log: `YYYY-MM-DDThh:mm:ss+ZZZZ`.
pub open spec fn line_stamp_layout() -> Seq<char> {
    "%Y-%m-%dT%H:%M:%S%z"@
}

/// The layouts the crate formats readings with.
pub open spec fn known_layout(layout: Seq<char>) -> bool {
    layout == date_dir_layout() || layout == file_stamp_layout() || layout == line_stamp_layout()
}

/// The text chrono's `DateTime::format` gives for the instant `utc_secs` +
/// `utc_nanos` seen at the offset `offset_secs`, laid out by `layout`.
pub uninterp spec fn time_text(utc_secs: i64, utc_nanos: u32, offset_secs: i32, layout: Seq<char>) -> Seq<char>;

/// The text of `t` laid out by `layout`.
pub open spec fn reading_text(t: ClockReading, layout: Seq<char>) -> Seq<char> {
    time_text(t.utc_secs, t.utc_nanos, t.offset_secs, layout)
}

/// Reads the local clock (chrono's `Local::now`): the instant and the local offset
/// from UTC in force at it.
///
/// Trusted: the reading lies in the range chrono's `Utc::now` can give (it panics
/// before the Unix epoch and past its calendar, and takes the nanoseconds from the
/// system time's sub-second part), with a `FixedOffset` of less than a day; which
/// reading comes back depends on the clock and the machine's time zone, so nothing
/// more is said of it.
#[verifier::external_body]
pub(crate) fn local_now() -> (r: ClockReading)
    ensures
        reading_in_range(r),
{
    let now = chrono::Local::now();
    ClockReading {
        utc_secs: now.timestamp(),
        utc_nanos: now.timestamp_subsec_nanos(),
        offset_secs: now.offset().local_minus_utc(),
    }
}

/// Lays out the reading `t` by `layout`, with chrono's `DateTime::format` on the
/// instant taken at the reading's fixed offset.
///
/// Trusted: the text is [`time_text`] of the reading and the layout. For a reading
/// in range, `DateTime::from_timestamp` and `FixedOffset::east_opt` succeed, and
/// the known layouts hold only valid specifiers, so formatting does not fail.
#[verifier::external_body]
pub(crate) fn format_reading(t: ClockReading, layout: &str) -> (r: String)
    requires
        reading_in_range(t),
        known_layout(layout@),
    ensures
        r@ == time_text(t.utc_secs, t.utc_nanos, t.offset_secs, layout@),
{
    let utc = chrono::DateTime::from_timestamp(t.utc_secs, t.utc_nanos).unwrap();
    let offset = chrono::FixedOffset::east_opt(t.offset_secs).unwrap();
    utc.with_timezone(&offset).format(layout).to_string()
}

} // verus!
