use vstd::prelude::*;

verus! {

/// A calendar date held as plain year, month and day numbers.
///
/// The interval logic and the renderer work on this type alone; the calendar
/// library that parses free-form text is consulted only at the boundary and
/// hands back these three numbers.
#[derive(Clone, Copy, PartialEq, Eq, Structural, Debug)]
pub struct Date {
    pub year: i32,
    pub month: u8,
    pub day: u8,
}

/// Year of the "beginning of time" sentinel: the smallest year the calendar
/// library supports.
pub const BEGINNING_YEAR: i32 = -262144;

impl Date {
    /// Month and day stay in calendar range; the year is unconstrained, so the
    /// "beginning of time" sentinel is itself well formed.
    pub open spec fn wf(self) -> bool {
        1 <= self.month <= 12 && 1 <= self.day <= 31
    }

    /// Sentinel meaning "unbounded start": the smallest date the calendar
    /// library supports.
    pub open spec fn spec_beginning_of_time() -> Date {
        Date { year: BEGINNING_YEAR, month: 1, day: 1 }
    }

    pub fn beginning_of_time() -> (d: Date)
        ensures
            d == Date::spec_beginning_of_time(),
            d.wf(),
    {
        Date { year: BEGINNING_YEAR, month: 1, day: 1 }
    }

    /// Strict chronological order, lexicographic on (year, month, day).
    pub open spec fn spec_lt(self, other: Date) -> bool {
        ||| self.year < other.year
        ||| (self.year == other.year && self.month < other.month)
        ||| (self.year == other.year && self.month == other.month && self.day < other.day)
    }

    pub open spec fn spec_le(self, other: Date) -> bool {
        self.spec_lt(other) || self == other
    }

    pub fn lt(&self, other: &Date) -> (r: bool)
        ensures
            r == self.spec_lt(*other),
    {
        if self.year != other.year {
            self.year < other.year
        } else if self.month != other.month {
            self.month < other.month
        } else {
            self.day < other.day
        }
    }

    pub fn le(&self, other: &Date) -> (r: bool)
        ensures
            r == self.spec_le(*other),
    {
        if self.year != other.year {
            self.year < other.year
        } else if self.month != other.month {
            self.month < other.month
        } else {
            self.day <= other.day
        }
    }

    /// Membership in the half-open interval `[start, end)` used to filter
    /// pinned messages.
    pub open spec fn spec_in_interval(self, start: Date, end: Date) -> bool {
        start.spec_le(self) && self.spec_lt(end)
    }

    pub fn in_interval(&self, start: &Date, end: &Date) -> (r: bool)
        ensures
            r == self.spec_in_interval(*start, *end),
    {
        start.le(self) && self.lt(end)
    }
}

} // verus!
