//! Local instants: a civil date and a time of day, ordered as they read.
//!
//! An instant is civil time as the local clock shows it and carries no offset
//! from UTC. Instants are compared field by field, so a day runs from one
//! midnight to the next however the clock is shifted in between.

use vstd::prelude::*;
use crate::calendar::CivilDate;

verus! {

/// A point of local civil time: a date and a time of day on it.
#[derive(Clone, Copy, Debug, PartialEq, Eq, Structural)]
pub struct LocalInstant {
    pub date: CivilDate,
    pub hour: u32,
    pub minute: u32,
    pub second: u32,
    pub nano: u32,
}

/// Whether `hour`, `minute`, `second` name a second of a day.
pub open spec fn is_time_of_day(hour: int, minute: int, second: int) -> bool {
    0 <= hour < 24 && 0 <= minute < 60 && 0 <= second < 60
}

/// Midnight at the beginning of `date`.
pub open spec fn midnight_of(date: CivilDate) -> LocalInstant {
    LocalInstant { date, hour: 0, minute: 0, second: 0, nano: 0 }
}

impl LocalInstant {
    /// The time of day of `self` is earlier than that of `other`.
    pub open spec fn earlier_in_day(self, other: LocalInstant) -> bool {
        self.hour < other.hour || (self.hour == other.hour && (self.minute < other.minute || (
        self.minute == other.minute && (self.second < other.second || (self.second
            == other.second && self.nano < other.nano)))))
    }

    /// `self` is strictly earlier than `other`.
    pub open spec fn before(self, other: LocalInstant) -> bool {
        self.date.before(other.date) || (self.date == other.date && self.earlier_in_day(other))
    }

    /// `self` is `other` or later.
    pub open spec fn at_or_after(self, other: LocalInstant) -> bool {
        !self.before(other)
    }

    /// Whether `self` is strictly earlier than `other`.
    pub fn is_before(&self, other: &LocalInstant) -> (r: bool)
        ensures
            r == self.before(*other),
    {
        if self.date.is_before(&other.date) {
            return true;
        }
        if self.date != other.date {
            return false;
        }
        self.hour < other.hour || (self.hour == other.hour && (self.minute < other.minute || (
        self.minute == other.minute && (self.second < other.second || (self.second
            == other.second && self.nano < other.nano)))))
    }
}

impl CivilDate {
    /// The instant at `hour`:`minute`:`second` of this date, if the day has
    /// such a second.
    pub fn and_hms(self, hour: u32, minute: u32, second: u32) -> (r: Option<LocalInstant>)
        ensures
            r == if is_time_of_day(hour as int, minute as int, second as int) {
                Some(LocalInstant { date: self, hour, minute, second, nano: 0 })
            } else {
                None::<LocalInstant>
            },
    {
        if hour >= 24 || minute >= 60 || second >= 60 {
            return None;
        }
        Some(LocalInstant { date: self, hour, minute, second, nano: 0 })
    }

    /// Midnight at the beginning of this date.
    pub fn midnight(self) -> (r: LocalInstant)
        ensures
            r == midnight_of(self),
    {
        LocalInstant { date: self, hour: 0, minute: 0, second: 0, nano: 0 }
    }
}

} // verus!
