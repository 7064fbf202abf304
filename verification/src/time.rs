//! Points in time, advanced by `chrono`.

use vstd::prelude::*;

verus! {

/// The first second that a [`Timestamp`] reaches, counted from the start of 1970 in UTC.
pub const FIRST_SECOND: i64 = -8_334_601_228_800;

/// The last second that a [`Timestamp`] reaches, counted from the start of 1970 in UTC.
pub const LAST_SECOND: i64 = 8_210_266_876_799;

/// What a [`Timestamp`] stands for: seconds since the start of 1970 in UTC, and nanoseconds since
/// that second.
///
/// A leap second has the number of the second before it, and over a thousand million nanoseconds.
pub struct Instant {
    pub seconds: int,
    pub nanos: int,
}

impl Instant {
    /// Whether the instant can be held in a [`Timestamp`].
    pub open spec fn in_range(self) -> bool {
        &&& FIRST_SECOND <= self.seconds <= LAST_SECOND
        &&& 0 <= self.nanos < 2_000_000_000
    }

    /// Whether the instant is `other` or comes after it.
    pub open spec fn not_before(self, other: Instant) -> bool {
        self.seconds > other.seconds || self.seconds == other.seconds && self.nanos >= other.nanos
    }

    /// The instant so many milliseconds later; a leap second that is left counts for nothing.
    pub open spec fn plus_millis(self, millis: nat) -> Instant {
        let added_nanos = (millis % 1000) * 1_000_000;
        if self.nanos >= 1_000_000_000 && millis < 1000 && self.nanos + added_nanos < 2_000_000_000 {
            Instant { seconds: self.seconds, nanos: self.nanos + added_nanos }
        } else {
            let nanos = self.nanos % 1_000_000_000 + added_nanos;
            Instant {
                seconds: self.seconds + millis / 1000 + nanos / 1_000_000_000,
                nanos: nanos % 1_000_000_000,
            }
        }
    }

    /// The start of 1970 in UTC.
    pub open spec fn epoch() -> Instant {
        Instant { seconds: 0, nanos: 0 }
    }
}

/// The instant of seconds and nanoseconds held in machine integers.
pub open spec fn instant(parts: (i64, u32)) -> Instant {
    Instant { seconds: parts.0 as int, nanos: parts.1 as int }
}

/// Adds milliseconds with `chrono`'s `DateTime::checked_add_signed`, on a `DateTime<Utc>`:
/// `None` where the result lies after the last day that `chrono` can hold.
#[verifier::external_body]
fn checked_add_millis(start: (i64, u32), millis: i64) -> (result: Option<(i64, u32)>)
    requires
        instant(start).in_range(),
        millis >= 0,
    ensures
        result is Some <==> instant(start).plus_millis(millis as nat).seconds <= LAST_SECOND,
        result matches Some(later) ==> instant(later) == instant(start).plus_millis(millis as nat),
{
    let day = chrono::DateTime::from_timestamp(start.0, 0)?.naive_utc();
    let time = chrono::Timelike::with_nanosecond(&day, start.1)?.and_utc();
    let later = time.checked_add_signed(chrono::TimeDelta::milliseconds(millis))?;
    Some((later.timestamp(), later.timestamp_subsec_nanos()))
}

/// A point in time, to the nanosecond.
#[derive(Clone, Copy, Debug, PartialEq, Eq)]
pub struct Timestamp {
    seconds: i64,
    nanos: u32,
}

impl View for Timestamp {
    type V = Instant;

    closed spec fn view(&self) -> Instant {
        instant((self.seconds, self.nanos))
    }
}

impl Timestamp {
    #[verifier::type_invariant]
    closed spec fn valid(self) -> bool {
        self@.in_range()
    }

    /// The time so many seconds after the start of 1970 in UTC, and so many nanoseconds after
    /// that; `None` where it is out of range.
    pub fn from_parts(seconds: i64, nanos: u32) -> (result: Option<Timestamp>)
        ensures
            result is Some <==> instant((seconds, nanos)).in_range(),
            result matches Some(time) ==> time@ == instant((seconds, nanos)),
    {
        if FIRST_SECOND <= seconds && seconds <= LAST_SECOND && nanos < 2_000_000_000 {
            Some(Timestamp { seconds, nanos })
        } else {
            None
        }
    }

    /// The seconds since the start of 1970 in UTC, and the nanoseconds since that second.
    pub fn parts(self) -> (parts: (i64, u32))
        ensures
            instant(parts) == self@,
            self@.in_range(),
    {
        proof {
            use_type_invariant(&self);
        }
        (self.seconds, self.nanos)
    }

    /// Whether the time is `other` or comes after it.
    pub fn not_before(self, other: Timestamp) -> (result: bool)
        ensures
            result == self@.not_before(other@),
    {
        self.seconds > other.seconds || self.seconds == other.seconds && self.nanos >= other.nanos
    }

    /// The time so many milliseconds later; `None` where it is out of range.
    pub fn checked_add_millis(self, millis: i64) -> (result: Option<Timestamp>)
        requires
            millis >= 0,
        ensures
            result is Some <==> self@.plus_millis(millis as nat).seconds <= LAST_SECOND,
            result matches Some(later) ==> later@ == self@.plus_millis(millis as nat),
    {
        let start = self.parts();
        let result = checked_add_millis(start, millis);
        match result {
            Some(later) => Some(Timestamp { seconds: later.0, nanos: later.1 }),
            None => None,
        }
    }
}

impl Default for Timestamp {
    fn default() -> (time: Timestamp)
        ensures
            time@ == Instant::epoch(),
    {
        Timestamp { seconds: 0, nanos: 0 }
    }
}

/// Time does not run backwards: a time plus milliseconds is not before that time.
pub proof fn adding_millis_is_not_before(start: Instant, millis: nat)
    requires
        start.in_range(),
    ensures
        start.plus_millis(millis).not_before(start),
{
}

/// A time comes no earlier than another one exactly where its second is later, or where it is the
/// same second and no fewer nanoseconds have passed in it.
pub proof fn seconds_count_before_nanoseconds(time: Instant, other: Instant)
    ensures
        time.not_before(other) <==> (time.seconds > other.seconds || (time.seconds == other.seconds
            && time.nanos >= other.nanos)),
{
}

/// Of two times one is not before the other, and both are so only where they are the same.
pub proof fn times_come_one_after_the_other(time: Instant, other: Instant)
    ensures
        time.not_before(other) || other.not_before(time),
        time.not_before(other) && other.not_before(time) <==> time == other,
{
}

/// A time holds the seconds and the nanoseconds that it is given, where the second is one that can
/// be reached and the nanoseconds are those of two seconds at most.
pub proof fn a_time_is_its_seconds_and_nanoseconds(seconds: i64, nanos: u32)
    ensures
        instant((seconds, nanos)).seconds == seconds,
        instant((seconds, nanos)).nanos == nanos,
        instant((seconds, nanos)).in_range() <==> (-8_334_601_228_800 <= seconds
            <= 8_210_266_876_799 && nanos < 2_000_000_000),
{
}

/// Milliseconds add up, counted in nanoseconds: a leap second that lasts long enough goes on, and
/// one that is left counts for nothing.
pub proof fn milliseconds_add_up(start: Instant, millis: nat)
    requires
        start.in_range(),
    ensures
        ({
            let later = start.plus_millis(millis);
            let passed = millis * 1_000_000;
            let elapsed = (later.seconds - start.seconds) * 1_000_000_000 + later.nanos
                - start.nanos;
            if start.nanos >= 1_000_000_000 && start.nanos + passed >= 2_000_000_000 {
                elapsed == passed - 1_000_000_000 && 0 <= later.nanos < 1_000_000_000
            } else if start.nanos >= 1_000_000_000 {
                elapsed == passed && later.seconds == start.seconds
            } else {
                elapsed == passed && 0 <= later.nanos < 1_000_000_000
            }
        }),
{
}

/// The time at which an exchange starts is the start of 1970.
pub proof fn the_epoch_is_at_zero()
    ensures
        Instant::epoch().seconds == 0,
        Instant::epoch().nanos == 0,
{
}

} // verus!
