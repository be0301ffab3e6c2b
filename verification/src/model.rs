//! The two schedule models behind one interface: the fixed day/night cycle
//! and the schedule read from configuration.

use crate::clock::{Boundaries, ClockTime};
use crate::schedule::{cyclic_predecessor, is_active, Schedule};
use vstd::prelude::*;

verus! {

/// A schedule model: what to show at a time of day, and what was shown
/// before it.
#[derive(Debug)]
pub enum ScheduleModel {
    /// Four parts of the day, each with its own image.
    Fixed(Boundaries),
    /// Entries of a time and a wallpaper.
    Listed(Schedule),
}

impl ScheduleModel {
    /// The wallpaper to show at `now`.
    pub fn active_wallpaper(&self, now: ClockTime) -> (r: &str)
        ensures
            match *self {
                ScheduleModel::Fixed(bounds) => r@ == bounds.state_at(now).file_name(),
                ScheduleModel::Listed(schedule) => exists|i: int| #[trigger]
                    is_active(schedule@, now, i) && r@ == schedule@[i].wallpaper,
            },
    {
        match self {
            ScheduleModel::Fixed(bounds) => bounds.classify(now).1.wallpaper(),
            ScheduleModel::Listed(schedule) => schedule.active_wallpaper(now),
        }
    }

    /// The wallpaper that was shown before the one at `now`.
    pub fn previous(&self, now: ClockTime) -> (r: &str)
        ensures
            match *self {
                ScheduleModel::Fixed(bounds) => r@ == bounds.state_at(now).predecessor().file_name(),
                ScheduleModel::Listed(schedule) => exists|i: int| #[trigger]
                    is_active(schedule@, now, i) && r@ == schedule@[cyclic_predecessor(
                        schedule@.len() as int,
                        i,
                    )].wallpaper,
            },
    {
        match self {
            ScheduleModel::Fixed(bounds) => bounds.classify(now).0.wallpaper(),
            ScheduleModel::Listed(schedule) => schedule.previous_wallpaper(now),
        }
    }
}

} // verus!
