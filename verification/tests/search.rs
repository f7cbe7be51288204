use broken_antler::search::{get_all_show_dates, show_dates_in_query, DayOfMonth, Month, ShowDate, Year};

fn dates_of(query: &str) -> Vec<ShowDate> {
    show_dates_in_query(query).into_vec()
}

#[test]
fn month_names_in_any_case() {
    assert_eq!(Month::from_str("January"), Ok(Month::January));
    assert_eq!(Month::from_str("jan"), Ok(Month::January));
    assert_eq!(Month::from_str("01"), Ok(Month::January));
    assert_eq!(Month::from_str("1"), Ok(Month::January));
    assert_eq!(Month::from_str("DEC"), Ok(Month::December));
    assert_eq!(Month::from_str("Sept"), Ok(Month::September));
    assert_eq!(Month::from_str("sep"), Ok(Month::September));
    assert_eq!(Month::from_str("may"), Ok(Month::May));
    assert_eq!(Month::from_str("10"), Ok(Month::October));
}

#[test]
fn month_rejects_other_words() {
    assert_eq!(Month::from_str("13"), Err(()));
    assert_eq!(Month::from_str(""), Err(()));
    assert_eq!(Month::from_str("010"), Err(()));
    assert_eq!(Month::from_str("janu"), Err(()));
    assert_eq!(Month::from_lowercase("JAN"), Err(()));
    assert_eq!(Month::from_lowercase("jan"), Ok(Month::January));
}

#[test]
fn year_in_range() {
    assert_eq!(Year::from_str("1997"), Ok(Year(1997)));
    assert_eq!(Year::from_str("1980"), Ok(Year(1980)));
    assert_eq!(Year::from_str("2040"), Ok(Year(2040)));
}

#[test]
fn year_rejects_out_of_range_and_shape() {
    assert_eq!(Year::from_str("1979"), Err(()));
    assert_eq!(Year::from_str("2041"), Err(()));
    assert_eq!(Year::from_str("97"), Err(()));
    assert_eq!(Year::from_str("19970"), Err(()));
    assert_eq!(Year::from_str("abcd"), Err(()));
    assert_eq!(Year::from_str(" 1997"), Err(()));
    assert_eq!(Year::from_shape("1997", false), Err(()));
    assert_eq!(Year::from_shape("2000", true), Ok(Year(2000)));
}

#[test]
fn day_in_range() {
    assert_eq!(DayOfMonth::from_str("7"), Ok(DayOfMonth(7)));
    assert_eq!(DayOfMonth::from_str("07"), Ok(DayOfMonth(7)));
    assert_eq!(DayOfMonth::from_str("31"), Ok(DayOfMonth(31)));
    assert_eq!(DayOfMonth::from_str("1"), Ok(DayOfMonth(1)));
}

#[test]
fn day_rejects_out_of_range_and_shape() {
    assert_eq!(DayOfMonth::from_str("0"), Err(()));
    assert_eq!(DayOfMonth::from_str("00"), Err(()));
    assert_eq!(DayOfMonth::from_str("32"), Err(()));
    assert_eq!(DayOfMonth::from_str("123"), Err(()));
    assert_eq!(DayOfMonth::from_str("x"), Err(()));
    assert_eq!(DayOfMonth::from_shape("12", false), Err(()));
}

#[test]
fn full_date_from_three_words() {
    let months = vec![(0usize, Month::June)];
    let days = vec![(1usize, DayOfMonth(3))];
    let years = vec![(2usize, Year(1997))];
    let dates = get_all_show_dates(&months, &days, &years).into_vec();
    assert_eq!(
        dates,
        vec![ShowDate::MonthAndDayAndYear { month: Month::June, day: DayOfMonth(3), year: Year(1997) }]
    );
}

#[test]
fn a_word_is_not_used_twice() {
    let months = vec![(0usize, Month::May)];
    let days = vec![(0usize, DayOfMonth(5))];
    let years: Vec<(usize, Year)> = vec![];
    assert_eq!(get_all_show_dates(&months, &days, &years).into_vec(), vec![]);
    let years = vec![(0usize, Year(1999))];
    assert_eq!(get_all_show_dates(&months, &[], &years).into_vec(), vec![]);
}

#[test]
fn partial_dates_when_no_full_date() {
    let months = vec![(0usize, Month::December)];
    let days = vec![(1usize, DayOfMonth(31))];
    let years = vec![(1usize, Year(1999))];
    let dates = get_all_show_dates(&months, &days, &years).into_vec();
    assert_eq!(
        dates,
        vec![
            ShowDate::MonthAndDay { month: Month::December, day: DayOfMonth(31) },
            ShowDate::MonthAndYear { month: Month::December, year: Year(1999) },
        ]
    );
}

#[test]
fn full_dates_crowd_out_partial_ones() {
    let months = vec![(0usize, Month::July), (3usize, Month::August)];
    let days = vec![(1usize, DayOfMonth(4))];
    let years = vec![(2usize, Year(1994))];
    let dates = get_all_show_dates(&months, &days, &years).into_vec();
    assert_eq!(
        dates,
        vec![
            ShowDate::MonthAndDayAndYear { month: Month::July, day: DayOfMonth(4), year: Year(1994) },
            ShowDate::MonthAndDayAndYear { month: Month::August, day: DayOfMonth(4), year: Year(1994) },
        ]
    );
}

#[test]
fn no_words_no_dates() {
    assert_eq!(get_all_show_dates(&[], &[], &[]).into_vec(), vec![]);
}

#[test]
fn query_with_slashes() {
    assert_eq!(
        dates_of("12/31/1999"),
        vec![ShowDate::MonthAndDayAndYear { month: Month::December, day: DayOfMonth(31), year: Year(1999) }]
    );
}

#[test]
fn query_month_and_year() {
    assert_eq!(
        dates_of("June 1997"),
        vec![ShowDate::MonthAndYear { month: Month::June, year: Year(1997) }]
    );
}

#[test]
fn query_month_and_day() {
    assert_eq!(
        dates_of("dec 31"),
        vec![ShowDate::MonthAndDay { month: Month::December, day: DayOfMonth(31) }]
    );
}

#[test]
fn query_without_dates() {
    assert_eq!(dates_of("Run Like an Antelope"), vec![]);
    assert_eq!(dates_of(""), vec![]);
    assert_eq!(dates_of("antelope"), vec![]);
}

#[test]
fn query_with_non_ascii_separators() {
    assert_eq!(
        dates_of("café—7·4·1994"),
        vec![
            ShowDate::MonthAndDayAndYear { month: Month::July, day: DayOfMonth(4), year: Year(1994) },
            ShowDate::MonthAndDayAndYear { month: Month::April, day: DayOfMonth(7), year: Year(1994) },
        ]
    );
}

#[test]
fn query_number_both_month_and_day() {
    // "3" and "4" each read as a month and as a day.
    assert_eq!(
        dates_of("3 4 1995"),
        vec![
            ShowDate::MonthAndDayAndYear { month: Month::March, day: DayOfMonth(4), year: Year(1995) },
            ShowDate::MonthAndDayAndYear { month: Month::April, day: DayOfMonth(3), year: Year(1995) },
        ]
    );
}

#[test]
fn words_read_as_years_and_days() {
    assert_eq!(Year::from_word("1997"), Some(Ok(Year(1997))));
    assert_eq!(Year::from_word("97"), Some(Err(())));
    assert_eq!(Year::from_word("\u{661}\u{669}\u{669}\u{667}"), None);
    assert_eq!(DayOfMonth::from_word("07"), Some(Ok(DayOfMonth(7))));
    assert_eq!(DayOfMonth::from_word("x"), Some(Err(())));
    assert_eq!(DayOfMonth::from_word("\u{661}"), None);
}
