//! Times of day and the fixed four-state day/night cycle.

use vstd::prelude::*;

verus! {

/// Seconds in one day; a valid time has fewer whole seconds.
pub const SECONDS_PER_DAY: u32 = 86_400;

/// Bound on the sub-second part. Values from one billion up stand for a leap
/// second.
pub const FRACTION_LIMIT: u32 = 2_000_000_000;

/// A time of day: whole seconds since midnight and nanoseconds past that
/// second. Times are ordered by seconds first, then by the fraction.
#[derive(Clone, Copy, Debug, PartialEq, Eq, Structural)]
pub struct ClockTime {
    pub secs: u32,
    pub frac: u32,
}

impl ClockTime {
    /// A time that lies within one day.
    pub open spec fn wf(self) -> bool {
        self.secs < SECONDS_PER_DAY && self.frac < FRACTION_LIMIT
    }

    /// `self` is strictly earlier in the day than `other`.
    pub open spec fn precedes(self, other: ClockTime) -> bool {
        self.secs < other.secs || (self.secs == other.secs && self.frac < other.frac)
    }

    /// The time `hour:minute:second`, where the three are in range.
    pub open spec fn hms(hour: u32, minute: u32, second: u32) -> Option<ClockTime> {
        if hour < 24 && minute < 60 && second < 60 {
            Some(ClockTime { secs: (hour * 3600 + minute * 60 + second) as u32, frac: 0 })
        } else {
            None
        }
    }

    /// The pair of seconds and fraction as a time, where both are in range.
    pub open spec fn checked(secs: u32, frac: u32) -> Option<ClockTime> {
        let t = ClockTime { secs, frac };
        if t.wf() {
            Some(t)
        } else {
            None
        }
    }

    /// The time `hour:minute:second`, if there is such a time.
    pub fn from_hms(hour: u32, minute: u32, second: u32) -> (r: Option<ClockTime>)
        ensures
            r == Self::hms(hour, minute, second),
            r matches Some(t) ==> t.wf(),
    {
        if hour < 24 && minute < 60 && second < 60 {
            Some(ClockTime { secs: hour * 3600 + minute * 60 + second, frac: 0 })
        } else {
            None
        }
    }

    /// The time of `secs` seconds since midnight and `frac` nanoseconds, if
    /// both are in range.
    pub fn from_parts(secs: u32, frac: u32) -> (r: Option<ClockTime>)
        ensures
            r == Self::checked(secs, frac),
    {
        if secs < SECONDS_PER_DAY && frac < FRACTION_LIMIT {
            Some(ClockTime { secs, frac })
        } else {
            None
        }
    }

    /// Whether `self` is strictly earlier in the day than `other`.
    pub fn is_before(&self, other: &ClockTime) -> (r: bool)
        ensures
            r == self.precedes(*other),
    {
        self.secs < other.secs || (self.secs == other.secs && self.frac < other.frac)
    }

    /// The hour of the day.
    pub fn hour(&self) -> (r: u32)
        ensures
            r == self.secs / 3600,
    {
        self.secs / 3600
    }

    /// The minute of the hour.
    pub fn minute(&self) -> (r: u32)
        ensures
            r == (self.secs / 60) % 60,
    {
        (self.secs / 60) % 60
    }

    /// The second of the minute.
    pub fn second(&self) -> (r: u32)
        ensures
            r == self.secs % 60,
    {
        self.secs % 60
    }
}

/// Earlier-than is a strict total order on times.
pub proof fn lemma_precedes_total_order(a: ClockTime, b: ClockTime, c: ClockTime)
    ensures
        !a.precedes(a),
        a.precedes(b) && b.precedes(c) ==> a.precedes(c),
        a.precedes(b) || b.precedes(a) || a == b,
        !(a.precedes(b) && b.precedes(a)),
{
}

/// The four parts of the day.
#[derive(Clone, Copy, Debug, PartialEq, Eq, Structural)]
pub enum TimeOfDay {
    Night,
    Morning,
    Day,
    Evening,
}

impl TimeOfDay {
    /// The part of the day that comes just before this one in the daily cycle.
    pub open spec fn predecessor(self) -> TimeOfDay {
        match self {
            TimeOfDay::Night => TimeOfDay::Evening,
            TimeOfDay::Morning => TimeOfDay::Night,
            TimeOfDay::Day => TimeOfDay::Morning,
            TimeOfDay::Evening => TimeOfDay::Day,
        }
    }

    /// The file name of the image shown during this part of the day.
    pub open spec fn file_name(self) -> Seq<char> {
        match self {
            TimeOfDay::Night => "night.jpg"@,
            TimeOfDay::Morning => "morning.jpg"@,
            TimeOfDay::Day => "day.jpg"@,
            TimeOfDay::Evening => "evening.jpg"@,
        }
    }

    /// The part of the day before this one.
    pub fn previous(self) -> (r: TimeOfDay)
        ensures
            r == self.predecessor(),
    {
        match self {
            TimeOfDay::Night => TimeOfDay::Evening,
            TimeOfDay::Morning => TimeOfDay::Night,
            TimeOfDay::Day => TimeOfDay::Morning,
            TimeOfDay::Evening => TimeOfDay::Day,
        }
    }

    /// The file name of the image for this part of the day.
    pub fn wallpaper(self) -> (r: &'static str)
        ensures
            r@ == self.file_name(),
    {
        match self {
            TimeOfDay::Night => "night.jpg",
            TimeOfDay::Morning => "morning.jpg",
            TimeOfDay::Day => "day.jpg",
            TimeOfDay::Evening => "evening.jpg",
        }
    }
}

/// Different parts of the day show different images.
pub proof fn lemma_file_names_differ(a: TimeOfDay, b: TimeOfDay)
    requires
        a != b,
    ensures
        a.file_name() != b.file_name(),
{
    reveal_strlit("night.jpg");
    reveal_strlit("morning.jpg");
    reveal_strlit("day.jpg");
    reveal_strlit("evening.jpg");
    assert(a.file_name().len() != b.file_name().len() || a.file_name()[0] != b.file_name()[0]);
}

/// The four times at which one part of the day gives way to the next.
#[derive(Clone, Copy, Debug, PartialEq, Eq, Structural)]
pub struct Boundaries {
    pub morning: ClockTime,
    pub day: ClockTime,
    pub evening: ClockTime,
    pub night: ClockTime,
}

impl Boundaries {
    /// The four boundaries come in this order within one day.
    pub open spec fn wf(self) -> bool {
        &&& self.morning.precedes(self.day)
        &&& self.day.precedes(self.evening)
        &&& self.evening.precedes(self.night)
    }

    /// Morning at 06:00, day at 09:00, evening at 16:00, night at 20:00.
    pub open spec fn usual() -> Boundaries {
        Boundaries {
            morning: ClockTime { secs: 21_600, frac: 0 },
            day: ClockTime { secs: 32_400, frac: 0 },
            evening: ClockTime { secs: 57_600, frac: 0 },
            night: ClockTime { secs: 72_000, frac: 0 },
        }
    }

    /// `now` lies in the range of `state`. Each range starts at its own
    /// boundary and ends just before the next; the night's range runs across
    /// midnight, up to the morning.
    pub open spec fn in_range(self, state: TimeOfDay, now: ClockTime) -> bool {
        match state {
            TimeOfDay::Night => !now.precedes(self.night) || now.precedes(self.morning),
            TimeOfDay::Morning => !now.precedes(self.morning) && now.precedes(self.day),
            TimeOfDay::Day => !now.precedes(self.day) && now.precedes(self.evening),
            TimeOfDay::Evening => !now.precedes(self.evening) && now.precedes(self.night),
        }
    }

    /// The part of the day at `now`.
    pub open spec fn state_at(self, now: ClockTime) -> TimeOfDay {
        if now.precedes(self.morning) {
            TimeOfDay::Night
        } else if now.precedes(self.day) {
            TimeOfDay::Morning
        } else if now.precedes(self.evening) {
            TimeOfDay::Day
        } else if now.precedes(self.night) {
            TimeOfDay::Evening
        } else {
            TimeOfDay::Night
        }
    }

    /// The usual boundaries: 06:00, 09:00, 16:00 and 20:00.
    pub fn standard() -> (r: Boundaries)
        ensures
            r == Self::usual(),
            r.wf(),
    {
        Boundaries {
            morning: ClockTime { secs: 21_600, frac: 0 },
            day: ClockTime { secs: 32_400, frac: 0 },
            evening: ClockTime { secs: 57_600, frac: 0 },
            night: ClockTime { secs: 72_000, frac: 0 },
        }
    }

    /// Four boundaries, accepted where they are in order.
    pub fn new(morning: ClockTime, day: ClockTime, evening: ClockTime, night: ClockTime) -> (r:
        Option<Boundaries>)
        ensures
            r == (if (Boundaries { morning, day, evening, night }).wf() {
                Some(Boundaries { morning, day, evening, night })
            } else {
                None
            }),
    {
        if morning.is_before(&day) && day.is_before(&evening) && evening.is_before(&night) {
            Some(Boundaries { morning, day, evening, night })
        } else {
            None
        }
    }

    /// The part of the day that precedes the current one, and the current one.
    pub fn classify(&self, now: ClockTime) -> (r: (TimeOfDay, TimeOfDay))
        ensures
            r.1 == self.state_at(now),
            r.0 == r.1.predecessor(),
            self.wf() ==> self.in_range(r.1, now),
    {
        let state = if now.is_before(&self.morning) {
            TimeOfDay::Night
        } else if now.is_before(&self.day) {
            TimeOfDay::Morning
        } else if now.is_before(&self.evening) {
            TimeOfDay::Day
        } else if now.is_before(&self.night) {
            TimeOfDay::Evening
        } else {
            TimeOfDay::Night
        };
        (state.previous(), state)
    }
}

/// With ordered boundaries the four ranges split the day: every instant lies
/// in the range of exactly one part of the day, the one that `state_at` names.
pub proof fn lemma_ranges_partition_day(bounds: Boundaries, now: ClockTime, state: TimeOfDay)
    requires
        bounds.wf(),
    ensures
        bounds.in_range(state, now) <==> state == bounds.state_at(now),
{
}

} // verus!
