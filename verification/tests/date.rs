use chrono::Datelike;
use tracker::Date;
use tracker::DateError;
use tracker::Month;

#[test]
fn date_parse_today_never_fails() {
    let before = chrono::Local::now();
    let date = Date::from_str("today").unwrap();
    let after = chrono::Local::now();

    let matches_clock = (date.day == before.day() && date.month as u32 + 1 == before.month())
        || (date.day == after.day() && date.month as u32 + 1 == after.month());
    assert!(matches_clock);
    assert!((1..=31).contains(&date.day));
}

#[test]
fn date_parse_day_and_month() {
    let date = Date::from_str("15 mar").unwrap();

    assert_eq!(15, date.day);
    assert_eq!(Month::March, date.month);
}

#[test]
fn date_parse_empty_is_empty_day() {
    assert_eq!(Err(DateError::EmptyDay), Date::from_str(""));
    assert_eq!(Err(DateError::EmptyDay), Date::from_str("   "));
}

#[test]
fn date_parse_missing_month() {
    assert_eq!(Err(DateError::EmptyMonth), Date::from_str("15"));
}

#[test]
fn date_parse_bad_day() {
    let expecting = DateError::InvalidDay("abc".to_owned());
    assert_eq!(Err(expecting), Date::from_str("abc mar"));
}

#[test]
fn date_parse_bad_month_carries_raw_text() {
    let expecting = DateError::InvalidMonth("XYZ".to_owned());
    assert_eq!(Err(expecting), Date::from_str("15 XYZ"));
}

#[test]
fn date_parse_month_case_insensitive() {
    assert_eq!(Month::December, Date::from_str("1 DEC").unwrap().month);
    assert_eq!(Month::July, Date::from_str("1 Jul").unwrap().month);
}

#[test]
fn date_parse_month_all_abbreviations() {
    let table = [
        ("jan", Month::January),
        ("feb", Month::February),
        ("mar", Month::March),
        ("apr", Month::April),
        ("may", Month::May),
        ("jun", Month::June),
        ("jul", Month::July),
        ("aug", Month::August),
        ("sep", Month::September),
        ("oct", Month::October),
        ("nov", Month::November),
        ("dec", Month::December),
    ];
    for (text, month) in table {
        assert_eq!(Ok(month), Date::parse_month(text));
    }
}

#[test]
fn date_parse_day_not_range_checked() {
    let date = Date::from_str("99 jan").unwrap();

    assert_eq!(99, date.day);
}

#[test]
fn date_parse_extra_tokens_ignored() {
    let date = Date::from_str("15 mar extra").unwrap();

    assert_eq!(15, date.day);
    assert_eq!(Month::March, date.month);
}

#[test]
fn date_new_keeps_fields() {
    let date = Date::new(7, Month::May);

    assert_eq!(7, date.day);
    assert_eq!(Month::May, date.month);
}

#[test]
fn date_error_messages() {
    assert_eq!("Date day input was empty", DateError::EmptyDay.to_message());
    assert_eq!("Date month input was empty", DateError::EmptyMonth.to_message());
    assert_eq!(
        "Date day invalid input (abc)",
        DateError::InvalidDay("abc".to_owned()).to_message()
    );
    assert_eq!(
        "Date month invalid input (xyz)",
        DateError::InvalidMonth("xyz".to_owned()).to_message()
    );
}
