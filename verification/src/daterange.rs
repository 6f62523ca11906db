use vstd::prelude::*;
use chrono::Datelike;
use crate::date::Date;

verus! {

/// The outcome of turning the leading free-text tokens into a concrete
/// interval: the inclusive start, the exclusive end, and how many tokens were
/// consumed as dates. Tokens not consumed stay in the argument stream and are
/// read again as container references.
pub struct DateRangeResolution {
    pub start: Date,
    pub end: Date,
    pub consumed: usize,
}

/// Relies on chrono's `Utc::now` and the `Datelike` accessors: the current UTC
/// day, with month and day in calendar range per chrono's documentation.
#[verifier::external_body]
pub fn today() -> (d: Date)
    ensures
        d.wf(),
{
    let now = chrono::Utc::now().date_naive();
    Date { year: now.year(), month: now.month() as u8, day: now.day() as u8 }
}

/// The defaulting rule for the two leading tokens, over their parse outcomes:
/// both parse as dates and both are consumed; only the first parses and the
/// second token is handed back; otherwise both tokens are handed back, and the
/// interval runs from the beginning of time to today.
pub open spec fn spec_resolve_date_range(first: Option<Date>, second: Option<Date>, today: Date) -> DateRangeResolution {
    match (first, second) {
        (Some(a), Some(b)) => DateRangeResolution { start: a, end: b, consumed: 2 },
        (Some(a), None) => DateRangeResolution { start: a, end: today, consumed: 1 },
        (None, _) => DateRangeResolution {
            start: Date::spec_beginning_of_time(),
            end: today,
            consumed: 0,
        },
    }
}

/// Turns the parse outcomes of the two leading tokens into a concrete
/// interval. A token that did not parse is never an error here: it is left in
/// the argument stream (see `consumed`) for reference resolution.
pub fn resolve_date_range(first: Option<Date>, second: Option<Date>, today: Date) -> (r: DateRangeResolution)
    ensures
        r == spec_resolve_date_range(first, second, today),
        first matches Some(a) ==> (second matches Some(b) ==> r.start == a && r.end == b
            && r.consumed == 2),
        first matches Some(a) ==> (second is None ==> r.start == a && r.end == today
            && r.consumed == 1),
        first is None ==> r.start == Date::spec_beginning_of_time() && r.end == today
            && r.consumed == 0,
{
    match (first, second) {
        (Some(a), Some(b)) => DateRangeResolution { start: a, end: b, consumed: 2 },
        (Some(a), None) => DateRangeResolution { start: a, end: today, consumed: 1 },
        (None, _) => DateRangeResolution {
            start: Date::beginning_of_time(),
            end: today,
            consumed: 0,
        },
    }
}

} // verus!
