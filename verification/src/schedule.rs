//! The two-state cycle and the arithmetic of its transition times.
//!
//! A time is a count of seconds since the start of 1970 in UTC, the
//! nanoseconds into that second, and the offset of local time from UTC.
//! The time of a transition is the current time, rounded to the nearest
//! minute of the local clock, plus the length of the interval that begins.

use vstd::prelude::*;

verus! {

/// The earliest second that a reading of the clock can hold: the first
/// second of the year -262143.
pub const EARLIEST_SECOND: i64 = -8_334_601_228_800;

/// The latest second that a reading of the clock can hold: the last second
/// of the year 262142.
pub const LATEST_SECOND: i64 = 8_210_266_876_799;

/// The nanoseconds of one second.
pub const NANOS_PER_SECOND: u32 = 1_000_000_000;

/// The seconds of one day; the offset of local time from UTC is smaller.
pub const SECONDS_PER_DAY: i32 = 86_400;

/// The mode of the cycle.
#[derive(Clone, Copy, Debug, PartialEq, Eq, Structural)]
pub enum CycleState {
    Working,
    Resting,
}

impl CycleState {
    /// The other mode.
    pub open spec fn flipped(self) -> CycleState {
        match self {
            CycleState::Working => CycleState::Resting,
            CycleState::Resting => CycleState::Working,
        }
    }

    /// The mode of a process that has just started: it rests, so that its
    /// first transition is into work.
    pub fn initial() -> (state: CycleState)
        ensures
            state == CycleState::Resting,
            state.flipped() == CycleState::Working,
    {
        CycleState::Resting
    }

    /// Leaves this mode for the other one.
    pub fn flip(self) -> (next: CycleState)
        ensures
            next == self.flipped(),
            next != self,
    {
        match self {
            CycleState::Working => CycleState::Resting,
            CycleState::Resting => CycleState::Working,
        }
    }
}

/// What to add to a time whose second of the minute is `second` to reach
/// the nearest full minute: the half minute goes up.
pub open spec fn minute_adjustment(second: int) -> int {
    if second < 30 {
        -second
    } else {
        60 - second
    }
}

/// The second of the local day, from 0 to 86399, at the second
/// `utc_second` where local time is `offset` seconds ahead of UTC.
pub open spec fn second_of_day_at(utc_second: int, offset: int) -> int {
    (utc_second + offset) % 86_400
}

/// A reading of the clock as a mathematical value.
pub struct InstantView {
    /// Seconds since the start of 1970 in UTC.
    pub secs: int,
    /// Nanoseconds into that second.
    pub nanos: int,
    /// Seconds that local time is ahead of UTC.
    pub offset: int,
}

impl InstantView {
    /// The ranges of the three parts.
    pub open spec fn valid(self) -> bool {
        &&& EARLIEST_SECOND <= self.secs <= LATEST_SECOND
        &&& 0 <= self.nanos < NANOS_PER_SECOND
        &&& -SECONDS_PER_DAY < self.offset < SECONDS_PER_DAY
    }

    /// The second of the minute that the local clock shows, from 0 to 59.
    pub open spec fn second_of_minute(self) -> int {
        (self.secs + self.offset) % 60
    }

    /// The second in which the time falls when it is moved to the nearest
    /// full minute of the local clock. The nanoseconds move with it.
    pub open spec fn rounded_to_minute(self) -> int {
        self.secs + minute_adjustment(self.second_of_minute())
    }

    /// The second of the transition that ends an interval of `minutes`
    /// minutes begun at this time. It is a whole second: the nanoseconds of
    /// the rounded time are dropped.
    pub open spec fn transition(self, minutes: nat) -> int {
        self.rounded_to_minute() + 60 * minutes
    }

    /// The whole seconds from this time to the start of the second
    /// `deadline`, if that is not in the past.
    pub open spec fn seconds_until(self, deadline: int) -> Option<nat> {
        let nanos_left = (deadline - self.secs) * NANOS_PER_SECOND - self.nanos;
        if nanos_left >= 0 {
            Some((nanos_left / (NANOS_PER_SECOND as int)) as nat)
        } else {
            None
        }
    }
}

/// A reading of the clock: a time and the offset of local time from UTC
/// that is in force at it.
#[derive(Clone, Copy, Debug)]
pub struct LocalInstant {
    secs: i64,
    nanos: u32,
    offset: i32,
}

impl View for LocalInstant {
    type V = InstantView;

    closed spec fn view(&self) -> InstantView {
        InstantView { secs: self.secs as int, nanos: self.nanos as int, offset: self.offset as int }
    }
}

impl LocalInstant {
    #[verifier::type_invariant]
    spec fn well_formed(self) -> bool {
        self@.valid()
    }

    /// The reading with the given parts, if each is in its range.
    pub fn new(secs: i64, nanos: u32, offset: i32) -> (instant: Option<LocalInstant>)
        ensures
            instant is Some <==> (InstantView {
                secs: secs as int,
                nanos: nanos as int,
                offset: offset as int,
            }).valid(),
            instant matches Some(t) ==> t@ == (InstantView {
                secs: secs as int,
                nanos: nanos as int,
                offset: offset as int,
            }),
    {
        if EARLIEST_SECOND <= secs && secs <= LATEST_SECOND && nanos < NANOS_PER_SECOND
            && -SECONDS_PER_DAY < offset && offset < SECONDS_PER_DAY {
            Some(LocalInstant { secs, nanos, offset })
        } else {
            None
        }
    }

    /// The reading with the given parts, each of them in its range.
    pub(crate) fn from_parts(secs: i64, nanos: u32, offset: i32) -> (instant: LocalInstant)
        requires
            (InstantView { secs: secs as int, nanos: nanos as int, offset: offset as int }).valid(),
        ensures
            instant@ == (InstantView {
                secs: secs as int,
                nanos: nanos as int,
                offset: offset as int,
            }),
    {
        LocalInstant { secs, nanos, offset }
    }

    /// Seconds since the start of 1970 in UTC.
    pub fn seconds(&self) -> (secs: i64)
        ensures
            secs == self@.secs,
            self@.valid(),
    {
        proof {
            use_type_invariant(self);
        }
        self.secs
    }

    /// Nanoseconds into the second.
    pub fn nanoseconds(&self) -> (nanos: u32)
        ensures
            nanos == self@.nanos,
            self@.valid(),
    {
        proof {
            use_type_invariant(self);
        }
        self.nanos
    }

    /// Seconds that local time is ahead of UTC.
    pub fn utc_offset(&self) -> (offset: i32)
        ensures
            offset == self@.offset,
            self@.valid(),
    {
        proof {
            use_type_invariant(self);
        }
        self.offset
    }

    /// The second in which this time falls when it is moved to the nearest
    /// full minute of the local clock: back by the seconds past the minute
    /// if they are fewer than 30, else forward to the next minute.
    pub fn round_to_minute(&self) -> (rounded: i64)
        ensures
            rounded == self@.rounded_to_minute(),
            (rounded + self@.offset) % 60 == 0,
            -30 < rounded - self@.secs <= 30,
            self@.second_of_minute() >= 30 ==> rounded > self@.secs,
            self@.second_of_minute() < 30 ==> rounded <= self@.secs,
    {
        proof {
            use_type_invariant(self);
        }
        let local: i64 = self.secs + self.offset as i64;
        let second: i64 = match local.checked_rem_euclid(60) {
            Some(second) => second,
            None => 0,
        };
        if second < 30 {
            self.secs - second
        } else {
            self.secs + (60 - second)
        }
    }

    /// The second of the transition that ends an interval of `minutes`
    /// minutes begun now: this time rounded to the minute, plus the
    /// interval, as a whole second.
    pub fn transition_time(&self, minutes: u32) -> (deadline: i64)
        ensures
            deadline == self@.transition(minutes as nat),
            (deadline + self@.offset) % 60 == 0,
    {
        let rounded = self.round_to_minute();
        proof {
            use_type_invariant(self);
        }
        rounded + 60 * (minutes as i64)
    }

    /// The whole seconds to wait from this time until the second
    /// `deadline` begins, a fraction of a second dropped; `None` if the
    /// deadline has passed.
    pub fn seconds_until(&self, deadline: i64) -> (wait: Option<u64>)
        ensures
            match wait {
                Some(seconds) => self@.seconds_until(deadline as int) == Some(seconds as nat),
                None => self@.seconds_until(deadline as int) is None,
            },
    {
        proof {
            use_type_invariant(self);
        }
        if deadline < self.secs || (deadline == self.secs && self.nanos > 0) {
            None
        } else {
            let whole: i128 = deadline as i128 - self.secs as i128;
            let seconds: i128 = if self.nanos > 0 {
                whole - 1
            } else {
                whole
            };
            Some(seconds as u64)
        }
    }
}

/// The second of the local day, from 0 to 86399, at the second
/// `utc_second` where local time is `offset` seconds ahead of UTC.
pub fn second_of_day(utc_second: i64, offset: i32) -> (second: u32)
    ensures
        second == second_of_day_at(utc_second as int, offset as int),
        second < 86_400,
{
    let local: i128 = utc_second as i128 + offset as i128;
    let second: i128 = match local.checked_rem_euclid(86_400) {
        Some(second) => second,
        None => 0,
    };
    second as u32
}

/// Rounding reaches the nearest full minute of the local clock: the
/// rounded time shows zero seconds, it lies at most 30 seconds from the
/// time itself, later if the clock shows 30 seconds or more and not later
/// if it shows fewer.
pub proof fn lemma_rounding_reaches_nearest_minute(time: InstantView)
    ensures
        (time.rounded_to_minute() + time.offset) % 60 == 0,
        -30 < time.rounded_to_minute() - time.secs <= 30,
        time.second_of_minute() >= 30 ==> time.rounded_to_minute() == time.secs + 60
            - time.second_of_minute() && time.rounded_to_minute() > time.secs,
        time.second_of_minute() < 30 ==> time.rounded_to_minute() == time.secs
            - time.second_of_minute() && time.rounded_to_minute() <= time.secs,
{
}

/// A transition falls on a full minute of the local clock and, for an
/// interval of a minute or more, lies ahead: at the time from which it
/// was computed there are 30 seconds or more to wait.
pub proof fn lemma_transition_lies_ahead(time: InstantView, minutes: nat)
    requires
        time.valid(),
        minutes >= 1,
    ensures
        (time.transition(minutes) + time.offset) % 60 == 0,
        time.transition(minutes) - time.rounded_to_minute() == 60 * minutes,
        time.seconds_until(time.transition(minutes)) matches Some(seconds) && seconds >= 30,
{
    lemma_rounding_reaches_nearest_minute(time);
    let nanos_left = (time.transition(minutes) - time.secs) * NANOS_PER_SECOND - time.nanos;
    assert(time.transition(minutes) - time.secs >= 31);
    assert(nanos_left >= 30 * NANOS_PER_SECOND);
}

} // verus!
