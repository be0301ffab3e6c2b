//! The order of schedule entries: by time alone.

use crate::clock::ClockTime;
use crate::schedule::ScheduleEntry;
use std::cmp::Ordering;
use vstd::prelude::*;

verus! {

/// How the time `a` stands to the time `b`.
pub open spec fn time_order(a: ClockTime, b: ClockTime) -> Ordering {
    if a.precedes(b) {
        Ordering::Less
    } else if b.precedes(a) {
        Ordering::Greater
    } else {
        Ordering::Equal
    }
}

impl ScheduleEntry {
    /// Compares two entries by their times; the wallpapers play no part.
    pub fn cmp(&self, other: &ScheduleEntry) -> (r: Ordering)
        ensures
            r == time_order(self.time, other.time),
    {
        if self.time.is_before(&other.time) {
            Ordering::Less
        } else if other.time.is_before(&self.time) {
            Ordering::Greater
        } else {
            Ordering::Equal
        }
    }

    /// Compares two entries by their times. Every two entries compare.
    pub fn partial_cmp(&self, other: &ScheduleEntry) -> (r: Option<Ordering>)
        ensures
            r == Some(time_order(self.time, other.time)),
    {
        Some(self.cmp(other))
    }
}

/// Entries compare as equal exactly where their times are the same, and
/// swapping the two turns the answer round.
pub proof fn lemma_time_order(a: ClockTime, b: ClockTime)
    ensures
        time_order(a, b) == Ordering::Equal <==> a == b,
        time_order(a, b) == Ordering::Less <==> time_order(b, a) == Ordering::Greater,
        time_order(a, b) == Ordering::Less <==> a.precedes(b),
{
}

} // verus!
