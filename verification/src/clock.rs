//! The clock and the time zone of the machine, and the text of a clock
//! time. What this module asks of the `chrono` crate is not verified: each
//! of the three functions that call it states what is taken on trust.

use vstd::prelude::*;
use crate::message::{
    free_of,
    lemma_substitution_is_idempotent,
    lemma_substitution_leaves_no_token,
    shares_no_char,
    substituted,
    PLACEHOLDER,
};
use crate::schedule::{
    second_of_day,
    second_of_day_at,
    LocalInstant,
    EARLIEST_SECOND,
    LATEST_SECOND,
    NANOS_PER_SECOND,
    SECONDS_PER_DAY,
};

verus! {

/// The character that writes the digit `digit`.
pub open spec fn digit_char(digit: int) -> char {
    ((48 + digit) as u8) as char
}

/// The clock time at the second `second_of_day` of a day: two digits for
/// the hour from 00 to 23, a colon, and two digits for the minute.
pub open spec fn clock_text(second_of_day: int) -> Seq<char> {
    let hour = second_of_day / 3600;
    let minute = (second_of_day / 60) % 60;
    seq![
        digit_char(hour / 10),
        digit_char(hour % 10),
        ':',
        digit_char(minute / 10),
        digit_char(minute % 10),
    ]
}

/// Calls `chrono::Local::now` and takes the result apart with
/// `DateTime::timestamp`, `DateTime::timestamp_subsec_nanos` and
/// `FixedOffset::local_minus_utc`.
///
/// Taken on trust: the time lies in the years that `chrono` can hold, the
/// clock never reads a leap second, so the nanoseconds stay under a
/// second, and the offset is less than a day either way. Nothing is
/// claimed about which time it is. Where the clock of the system stands
/// before 1970, `chrono` panics rather than answer.
#[verifier::external_body]
fn read_local_clock() -> (reading: (i64, u32, i32))
    ensures
        EARLIEST_SECOND <= reading.0 <= LATEST_SECOND,
        reading.1 < NANOS_PER_SECOND,
        -SECONDS_PER_DAY < reading.2 < SECONDS_PER_DAY,
{
    let now = chrono::Local::now();
    (now.timestamp(), now.timestamp_subsec_nanos(), now.offset().local_minus_utc())
}

/// Calls `chrono::TimeZone::timestamp_opt` on `chrono::Local` and reads the
/// offset of the result with `FixedOffset::local_minus_utc`.
///
/// Taken on trust: for a second in the years that `chrono` can hold there
/// is a local time, and its offset from UTC is less than a day either way.
/// Nothing is claimed about which offset it is: that depends on the time
/// zone of the machine.
#[verifier::external_body]
fn read_local_offset(utc_second: i64) -> (offset: i32)
    requires
        EARLIEST_SECOND <= utc_second <= LATEST_SECOND,
    ensures
        -SECONDS_PER_DAY < offset < SECONDS_PER_DAY,
{
    let local = chrono::TimeZone::timestamp_opt(&chrono::Local, utc_second, 0).unwrap();
    local.offset().local_minus_utc()
}

/// Calls `chrono::NaiveTime::from_num_seconds_from_midnight_opt` and
/// formats the result with `NaiveTime::format` and the pattern `%H:%M`.
///
/// Taken on trust: the text is the hour of the day in two digits, a colon,
/// and the minute of the hour in two digits.
#[verifier::external_body]
fn format_clock_time(second_of_day: u32) -> (text: String)
    requires
        second_of_day < 86_400,
    ensures
        text@ == clock_text(second_of_day as int),
{
    let time = chrono::NaiveTime::from_num_seconds_from_midnight_opt(second_of_day, 0).unwrap();
    time.format("%H:%M").to_string()
}

/// Reads the clock of the machine: the current time and the offset of
/// local time from UTC that is in force now.
pub fn now() -> (instant: LocalInstant)
    ensures
        instant@.valid(),
{
    let (secs, nanos, offset) = read_local_clock();
    LocalInstant::from_parts(secs, nanos, offset)
}

/// The offset of local time from UTC, in seconds, that is in force on this
/// machine at the second `utc_second`; `None` if that second lies outside
/// the years that the clock can hold.
pub fn local_offset_at(utc_second: i64) -> (offset: Option<i32>)
    ensures
        offset is Some <==> EARLIEST_SECOND <= utc_second <= LATEST_SECOND,
        offset matches Some(seconds) ==> -SECONDS_PER_DAY < seconds < SECONDS_PER_DAY,
{
    if EARLIEST_SECOND <= utc_second && utc_second <= LATEST_SECOND {
        Some(read_local_offset(utc_second))
    } else {
        None
    }
}

/// The time that a clock shows at the second `utc_second` where local time
/// is `offset` seconds ahead of UTC, as `HH:MM`.
pub fn clock_time(utc_second: i64, offset: i32) -> (text: String)
    ensures
        text@ == clock_text(second_of_day_at(utc_second as int, offset as int)),
{
    format_clock_time(second_of_day(utc_second, offset))
}

/// A clock time has five characters, and none of them is a character of
/// the placeholder.
pub proof fn lemma_clock_text_is_apart_from_placeholder(second_of_day: int)
    requires
        0 <= second_of_day < 86_400,
    ensures
        clock_text(second_of_day).len() == 5,
        shares_no_char(clock_text(second_of_day), PLACEHOLDER@),
        PLACEHOLDER@.len() == 6,
{
    reveal_strlit("%time%");
    let text = clock_text(second_of_day);
    let hour = second_of_day / 3600;
    let minute = (second_of_day / 60) % 60;
    assert(0 <= hour < 24);
    assert(0 <= minute < 60);
    assert forall|i: int, j: int| 0 <= i < text.len() && 0 <= j < PLACEHOLDER@.len() implies text[i]
        != PLACEHOLDER@[j] by {
        assert(48 <= text[i] as u32 <= 58);
        assert(PLACEHOLDER@[j] as u32 == 37 || PLACEHOLDER@[j] as u32 > 100);
    }
}

/// Putting a clock time into a template replaces the placeholder wherever
/// it stands: none is left in the result, and putting the same time in
/// once more changes nothing.
pub proof fn lemma_clock_substitution_is_complete(template: Seq<char>, second_of_day: int)
    requires
        0 <= second_of_day < 86_400,
    ensures
        free_of(substituted(template, PLACEHOLDER@, clock_text(second_of_day)), PLACEHOLDER@),
        substituted(
            substituted(template, PLACEHOLDER@, clock_text(second_of_day)),
            PLACEHOLDER@,
            clock_text(second_of_day),
        ) == substituted(template, PLACEHOLDER@, clock_text(second_of_day)),
{
    lemma_clock_text_is_apart_from_placeholder(second_of_day);
    lemma_substitution_leaves_no_token(template, PLACEHOLDER@, clock_text(second_of_day));
    lemma_substitution_is_idempotent(template, PLACEHOLDER@, clock_text(second_of_day));
}

} // verus!
