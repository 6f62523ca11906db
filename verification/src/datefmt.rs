use vstd::prelude::*;
use crate::date::BEGINNING_YEAR;
use crate::date::Date;

verus! {

pub open spec fn digit_char(d: int) -> char {
    if d == 0 { '0' }
    else if d == 1 { '1' }
    else if d == 2 { '2' }
    else if d == 3 { '3' }
    else if d == 4 { '4' }
    else if d == 5 { '5' }
    else if d == 6 { '6' }
    else if d == 7 { '7' }
    else if d == 8 { '8' }
    else { '9' }
}

/// Decimal digits of `n`, most significant first, no padding.
pub open spec fn spec_dec(n: nat) -> Seq<char>
    decreases n,
{
    if n < 10 {
        seq![digit_char(n as int)]
    } else {
        spec_dec(n / 10).push(digit_char((n % 10) as int))
    }
}

/// Decimal digits of `n`, zero-padded on the left to at least four digits.
pub open spec fn spec_pad4(n: nat) -> Seq<char> {
    if n < 10 { seq!['0', '0', '0'] + spec_dec(n) }
    else if n < 100 { seq!['0', '0'] + spec_dec(n) }
    else if n < 1000 { seq!['0'] + spec_dec(n) }
    else { spec_dec(n) }
}

/// A year label: four-digit zero-padded magnitude, with a leading minus sign
/// for years before year zero.
pub open spec fn spec_year(y: int) -> Seq<char> {
    if y < 0 { seq!['-'] + spec_pad4((-y) as nat) } else { spec_pad4(y as nat) }
}

pub open spec fn spec_month_abbrev(m: int) -> Seq<char> {
    if m == 1 { "Jan"@ }
    else if m == 2 { "Feb"@ }
    else if m == 3 { "Mar"@ }
    else if m == 4 { "Apr"@ }
    else if m == 5 { "May"@ }
    else if m == 6 { "Jun"@ }
    else if m == 7 { "Jul"@ }
    else if m == 8 { "Aug"@ }
    else if m == 9 { "Sep"@ }
    else if m == 10 { "Oct"@ }
    else if m == 11 { "Nov"@ }
    else { "Dec"@ }
}

/// Ordinal suffix of a day of month: 1/21/31 take "st", 2/22 "nd", 3/23 "rd",
/// every other day "th".
pub open spec fn spec_ordinal_suffix(d: int) -> Seq<char> {
    if d == 1 || d == 21 || d == 31 { "st"@ }
    else if d == 2 || d == 22 { "nd"@ }
    else if d == 3 || d == 23 { "rd"@ }
    else { "th"@ }
}

/// One date label: abbreviated month, day with ordinal suffix, and the year
/// after a comma when `with_year` is set.
pub open spec fn spec_render_date(d: Date, with_year: bool) -> Seq<char> {
    spec_month_abbrev(d.month as int) + " "@ + spec_dec(d.day as nat)
        + spec_ordinal_suffix(d.day as int)
        + if with_year { ", "@ + spec_year(d.year as int) } else { Seq::<char>::empty() }
}

/// The human-readable label of a resolved interval. Years are suppressed when
/// start and end share one; an unbounded start renders as "Up until", and then
/// the end's year is also suppressed when it is today's year.
pub open spec fn spec_render_date_range(start: Date, end: Date, today: Date) -> Seq<char> {
    let same_year = start.year == end.year;
    let end_is_today = end.year == today.year;
    let since_beginning = start == Date::spec_beginning_of_time();
    let start_part = if since_beginning {
        "Up until"@
    } else {
        spec_render_date(start, !same_year) + " -"@
    };
    start_part + " "@ + spec_render_date(end, !(same_year || (since_beginning && end_is_today)))
}

fn append_digit(s: &mut String, d: u64)
    requires
        d < 10,
    ensures
        final(s)@ == old(s)@ + seq![digit_char(d as int)],
{
    if d == 0 { s.append("0"); proof { reveal_strlit("0"); assert(s@ =~= old(s)@ + seq![digit_char(d as int)]); } }
    else if d == 1 { s.append("1"); proof { reveal_strlit("1"); assert(s@ =~= old(s)@ + seq![digit_char(d as int)]); } }
    else if d == 2 { s.append("2"); proof { reveal_strlit("2"); assert(s@ =~= old(s)@ + seq![digit_char(d as int)]); } }
    else if d == 3 { s.append("3"); proof { reveal_strlit("3"); assert(s@ =~= old(s)@ + seq![digit_char(d as int)]); } }
    else if d == 4 { s.append("4"); proof { reveal_strlit("4"); assert(s@ =~= old(s)@ + seq![digit_char(d as int)]); } }
    else if d == 5 { s.append("5"); proof { reveal_strlit("5"); assert(s@ =~= old(s)@ + seq![digit_char(d as int)]); } }
    else if d == 6 { s.append("6"); proof { reveal_strlit("6"); assert(s@ =~= old(s)@ + seq![digit_char(d as int)]); } }
    else if d == 7 { s.append("7"); proof { reveal_strlit("7"); assert(s@ =~= old(s)@ + seq![digit_char(d as int)]); } }
    else if d == 8 { s.append("8"); proof { reveal_strlit("8"); assert(s@ =~= old(s)@ + seq![digit_char(d as int)]); } }
    else { s.append("9"); proof { reveal_strlit("9"); assert(s@ =~= old(s)@ + seq![digit_char(d as int)]); } }
}

pub fn append_dec(s: &mut String, n: u64)
    ensures
        final(s)@ == old(s)@ + spec_dec(n as nat),
    decreases n,
{
    if n < 10 {
        append_digit(s, n);
    } else {
        append_dec(s, n / 10);
        append_digit(s, n % 10);
        proof {
            assert(s@ =~= old(s)@ + spec_dec(n as nat));
        }
    }
}

fn append_pad4(s: &mut String, n: u32)
    ensures
        final(s)@ == old(s)@ + spec_pad4(n as nat),
{
    if n < 10 {
        s.append("000");
        proof { reveal_strlit("000"); }
    } else if n < 100 {
        s.append("00");
        proof { reveal_strlit("00"); }
    } else if n < 1000 {
        s.append("0");
        proof { reveal_strlit("0"); }
    }
    append_dec(s, n as u64);
    proof {
        assert(s@ =~= old(s)@ + spec_pad4(n as nat));
    }
}

fn append_year(s: &mut String, y: i32)
    ensures
        final(s)@ == old(s)@ + spec_year(y as int),
{
    if y < 0 {
        s.append("-");
        proof { reveal_strlit("-"); }
        let mag64: i64 = -(y as i64);
        let mag: u32 = mag64 as u32;
        append_pad4(s, mag);
        proof {
            assert(s@ =~= old(s)@ + spec_year(y as int));
        }
    } else {
        append_pad4(s, y as u32);
    }
}

fn append_month_abbrev(s: &mut String, m: u8)
    requires
        1 <= m <= 12,
    ensures
        final(s)@ == old(s)@ + spec_month_abbrev(m as int),
{
    if m == 1 { s.append("Jan"); }
    else if m == 2 { s.append("Feb"); }
    else if m == 3 { s.append("Mar"); }
    else if m == 4 { s.append("Apr"); }
    else if m == 5 { s.append("May"); }
    else if m == 6 { s.append("Jun"); }
    else if m == 7 { s.append("Jul"); }
    else if m == 8 { s.append("Aug"); }
    else if m == 9 { s.append("Sep"); }
    else if m == 10 { s.append("Oct"); }
    else if m == 11 { s.append("Nov"); }
    else { s.append("Dec"); }
}

fn append_ordinal_suffix(s: &mut String, d: u8)
    ensures
        final(s)@ == old(s)@ + spec_ordinal_suffix(d as int),
{
    if d == 1 || d == 21 || d == 31 { s.append("st"); }
    else if d == 2 || d == 22 { s.append("nd"); }
    else if d == 3 || d == 23 { s.append("rd"); }
    else { s.append("th"); }
}

/// Appends one rendered date label to `s`.
pub fn append_render_date(s: &mut String, d: Date, with_year: bool)
    requires
        d.wf(),
    ensures
        final(s)@ == old(s)@ + spec_render_date(d, with_year),
{
    append_month_abbrev(s, d.month);
    s.append(" ");
    append_dec(s, d.day as u64);
    append_ordinal_suffix(s, d.day);
    if with_year {
        s.append(", ");
        append_year(s, d.year);
    }
    proof {
        assert(s@ =~= old(s)@ + spec_render_date(d, with_year));
    }
}

/// Pure rendering of a resolved interval into its human-readable label.
pub fn render_date_range(start: Date, end: Date, today: Date) -> (r: String)
    requires
        start.wf(),
        end.wf(),
    ensures
        r@ == spec_render_date_range(start, end, today),
{
    let same_year: bool = start.year == end.year;
    let end_is_today: bool = end.year == today.year;
    let since_beginning: bool = start.year == BEGINNING_YEAR && start.month == 1 && start.day == 1;
    proof {
        assert(since_beginning == (start == Date::spec_beginning_of_time()));
    }
    let mut r = String::new();
    if since_beginning {
        r.append("Up until");
    } else {
        append_render_date(&mut r, start, !same_year);
        r.append(" -");
    }
    r.append(" ");
    append_render_date(&mut r, end, !(same_year || (since_beginning && end_is_today)));
    proof {
        assert(r@ =~= spec_render_date_range(start, end, today));
    }
    r
}

} // verus!
