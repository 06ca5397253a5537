//! The wall clock, read as an instant that RFC 3339 can write.

use chrono::{DateTime, Utc};
use std::time::{SystemTime, UNIX_EPOCH};
use vstd::prelude::*;

verus! {

/// The first second that is written with a four-digit year:
/// 0000-01-01T00:00:00Z, counted from the epoch.
pub const FIRST_SECOND: i64 = -62_167_219_200;

/// The last second that is written with a four-digit year:
/// 9999-12-31T23:59:59Z, counted from the epoch.
pub const LAST_SECOND: i64 = 253_402_300_799;

/// The nanoseconds in a second.
pub const NANOS_PER_SECOND: u32 = 1_000_000_000;

/// Whether `c` is a decimal digit.
pub open spec fn is_digit(c: char) -> bool {
    '0' <= c <= '9'
}

/// Whether `text` has the form in which an instant in UTC is written:
/// `YYYY-MM-DDTHH:MM:SS`, then nothing or a point and three, six or nine
/// digits of the second, then `+00:00`.
pub open spec fn is_rfc3339_utc(text: Seq<char>) -> bool {
    &&& (text.len() == 25 || text.len() == 29 || text.len() == 32 || text.len() == 35)
    &&& is_digit(text[0]) && is_digit(text[1]) && is_digit(text[2]) && is_digit(text[3])
    &&& text[4] == '-'
    &&& is_digit(text[5]) && is_digit(text[6])
    &&& text[7] == '-'
    &&& is_digit(text[8]) && is_digit(text[9])
    &&& text[10] == 'T'
    &&& is_digit(text[11]) && is_digit(text[12])
    &&& text[13] == ':'
    &&& is_digit(text[14]) && is_digit(text[15])
    &&& text[16] == ':'
    &&& is_digit(text[17]) && is_digit(text[18])
    &&& text.len() > 25 ==> text[19] == '.' && forall|i: int|
        20 <= i < text.len() - 6 ==> is_digit(#[trigger] text[i])
    &&& text.subrange(text.len() - 6, text.len() as int) == seq!['+', '0', '0', ':', '0', '0']
}

/// The text in which the instant `nanos` nanoseconds after the second
/// `secs` is written.
pub uninterp spec fn rfc3339_text(secs: i64, nanos: u32) -> Seq<char>;

/// Calls `std::time::SystemTime::now` and takes the reading apart with
/// `SystemTime::duration_since(UNIX_EPOCH)`: whether the clock stands at or
/// after the epoch, how many whole seconds it is away from it, and the
/// nanoseconds beyond them.
///
/// Trusted, and nothing is claimed of the reading: it depends on when the
/// call is made.
#[verifier::external_body]
fn read_clock() -> (reading: (bool, u64, u32)) {
    match SystemTime::now().duration_since(UNIX_EPOCH) {
        Ok(since) => (true, since.as_secs(), since.subsec_nanos()),
        Err(before) => (false, before.duration().as_secs(), before.duration().subsec_nanos()),
    }
}

/// Calls `chrono::DateTime::<Utc>::from_timestamp` and renders the instant
/// with `DateTime::to_rfc3339`.
///
/// Trusted: for a second of a four-digit year and nanoseconds below a
/// second, the text is a function of the two numbers alone and has the form
/// of an instant in UTC.
#[verifier::external_body]
fn render_instant(secs: i64, nanos: u32) -> (text: String)
    requires
        FIRST_SECOND <= secs <= LAST_SECOND,
        nanos < NANOS_PER_SECOND,
    ensures
        text@ == rfc3339_text(secs, nanos),
        is_rfc3339_utc(text@),
{
    match DateTime::<Utc>::from_timestamp(secs, nanos) {
        Some(instant) => instant.to_rfc3339(),
        None => String::new(),
    }
}

/// The instant that a reading of the clock stands for, as seconds from the
/// epoch and nanoseconds beyond them: `secs` seconds and `nanos`
/// nanoseconds after the epoch, or before it. Nanoseconds count up to the
/// last of a second. A reading before the year 0 stands for the first
/// instant of that year, and one after the year 9999 for the last instant
/// of that year: RFC 3339 writes no other years.
pub open spec fn instant_of(after_epoch: bool, secs: u64, nanos: u32) -> (i64, u32) {
    let part: u32 = if nanos < NANOS_PER_SECOND {
        nanos
    } else {
        (NANOS_PER_SECOND - 1) as u32
    };
    if after_epoch {
        if secs <= LAST_SECOND {
            (secs as i64, part)
        } else {
            (LAST_SECOND, (NANOS_PER_SECOND - 1) as u32)
        }
    } else if part == 0 {
        if secs <= -FIRST_SECOND {
            ((-(secs as int)) as i64, 0u32)
        } else {
            (FIRST_SECOND, 0u32)
        }
    } else if secs < -FIRST_SECOND {
        ((-(secs as int) - 1) as i64, (NANOS_PER_SECOND - part) as u32)
    } else {
        (FIRST_SECOND, 0u32)
    }
}

/// Computes the instant that a reading of the clock stands for.
pub fn instant(after_epoch: bool, secs: u64, nanos: u32) -> (at: (i64, u32))
    ensures
        at == instant_of(after_epoch, secs, nanos),
        FIRST_SECOND <= at.0 <= LAST_SECOND,
        at.1 < NANOS_PER_SECOND,
{
    let part: u32 = if nanos < NANOS_PER_SECOND {
        nanos
    } else {
        NANOS_PER_SECOND - 1
    };
    if after_epoch {
        if secs <= 253_402_300_799 {
            (secs as i64, part)
        } else {
            (LAST_SECOND, NANOS_PER_SECOND - 1)
        }
    } else if part == 0 {
        if secs <= 62_167_219_200 {
            (0 - (secs as i64), 0)
        } else {
            (FIRST_SECOND, 0)
        }
    } else if secs < 62_167_219_200 {
        (0 - (secs as i64) - 1, NANOS_PER_SECOND - part)
    } else {
        (FIRST_SECOND, 0)
    }
}

/// The text of the instant that a reading of the clock stands for.
pub open spec fn reading_text(after_epoch: bool, secs: u64, nanos: u32) -> Seq<char> {
    rfc3339_text(instant_of(after_epoch, secs, nanos).0, instant_of(after_epoch, secs, nanos).1)
}

/// Writes the instant that a reading of the clock stands for.
pub fn write_instant(after_epoch: bool, secs: u64, nanos: u32) -> (text: String)
    ensures
        text@ == reading_text(after_epoch, secs, nanos),
        is_rfc3339_utc(text@),
{
    let at = instant(after_epoch, secs, nanos);
    render_instant(at.0, at.1)
}

/// Reads the clock and writes the current instant in UTC.
pub fn utc_now_rfc3339() -> (now: String)
    ensures
        is_rfc3339_utc(now@),
{
    let reading = read_clock();
    write_instant(reading.0, reading.1, reading.2)
}

} // verus!
