use summary_doc::date::Date;
use summary_doc::datefmt::render_date_range;
use summary_doc::daterange::resolve_date_range;
use summary_doc::daterange::today;

fn d(year: i32, month: u8, day: u8) -> Date {
    Date { year, month, day }
}

#[test]
fn both_tokens_parsed_are_consumed_unchanged() {
    let t = d(2024, 6, 15);
    let r = resolve_date_range(Some(d(2024, 1, 2)), Some(d(2024, 3, 4)), t);
    assert_eq!(r.start, d(2024, 1, 2));
    assert_eq!(r.end, d(2024, 3, 4));
    assert_eq!(r.consumed, 2);
}

#[test]
fn single_parsed_token_rewinds_exactly_one() {
    let t = d(2024, 6, 15);
    let r = resolve_date_range(Some(d(2024, 1, 2)), None, t);
    assert_eq!(r.start, d(2024, 1, 2));
    assert_eq!(r.end, t);
    assert_eq!(r.consumed, 1);
}

#[test]
fn no_parsed_token_rewinds_both() {
    let t = d(2024, 6, 15);
    let r = resolve_date_range(None, None, t);
    assert_eq!(r.start, Date::beginning_of_time());
    assert_eq!(r.end, t);
    assert_eq!(r.consumed, 0);
}

#[test]
fn first_unparsed_second_parsed_still_rewinds_both() {
    let t = d(2024, 6, 15);
    let r = resolve_date_range(None, Some(d(2024, 3, 4)), t);
    assert_eq!(r.start, Date::beginning_of_time());
    assert_eq!(r.end, t);
    assert_eq!(r.consumed, 0);
}

#[test]
fn unbounded_start_same_year_suppresses_year() {
    let r = render_date_range(Date::beginning_of_time(), d(2024, 6, 1), d(2024, 6, 15));
    assert_eq!(r, "Up until Jun 1st");
}

#[test]
fn different_years_show_both_years() {
    let r = render_date_range(d(2023, 1, 5), d(2024, 6, 1), d(2024, 6, 15));
    assert_eq!(r, "Jan 5th, 2023 - Jun 1st, 2024");
}

#[test]
fn unbounded_start_other_year_shows_end_year() {
    let r = render_date_range(Date::beginning_of_time(), d(2024, 6, 1), d(2025, 1, 1));
    assert_eq!(r, "Up until Jun 1st, 2024");
}

#[test]
fn same_year_suppresses_year_on_both_sides() {
    let r = render_date_range(d(2024, 1, 1), d(2024, 12, 31), d(2025, 3, 3));
    assert_eq!(r, "Jan 1st - Dec 31st");
}

#[test]
fn ordinal_suffixes() {
    assert_eq!(
        render_date_range(d(2024, 5, 21), d(2024, 6, 2), d(2025, 1, 1)),
        "May 21st - Jun 2nd"
    );
    assert_eq!(
        render_date_range(d(2023, 1, 3), d(2023, 2, 23), d(2023, 5, 5)),
        "Jan 3rd - Feb 23rd"
    );
    assert_eq!(
        render_date_range(d(2022, 4, 15), d(2022, 4, 30), d(2022, 5, 5)),
        "Apr 15th - Apr 30th"
    );
    assert_eq!(
        render_date_range(d(2022, 7, 31), d(2022, 8, 22), d(2022, 9, 9)),
        "Jul 31st - Aug 22nd"
    );
}

#[test]
fn date_ordering_is_lexicographic() {
    assert!(d(2023, 12, 31).lt(&d(2024, 1, 1)));
    assert!(d(2024, 1, 31).lt(&d(2024, 2, 1)));
    assert!(d(2024, 2, 1).lt(&d(2024, 2, 2)));
    assert!(!d(2024, 2, 2).lt(&d(2024, 2, 2)));
    assert!(d(2024, 2, 2).le(&d(2024, 2, 2)));
}

#[test]
fn today_is_well_formed() {
    let t = today();
    assert!((1..=12).contains(&t.month));
    assert!((1..=31).contains(&t.day));
}
