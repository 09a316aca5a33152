use pair_ledger::date::Date;
use pair_ledger::routes::list::date_to_string;

#[test]
fn days_of_the_calendar() {
    assert_eq!(Date::new(2024, 2, 29), Some(Date { year: 2024, month: 2, day: 29 }));
    assert_eq!(Date::new(2023, 2, 29), None);
    assert_eq!(Date::new(1900, 2, 29), None);
    assert_eq!(Date::new(2000, 2, 29), Some(Date { year: 2000, month: 2, day: 29 }));
    assert_eq!(Date::new(2024, 4, 31), None);
    assert_eq!(Date::new(2024, 4, 30), Some(Date { year: 2024, month: 4, day: 30 }));
    assert_eq!(Date::new(2024, 12, 31), Some(Date { year: 2024, month: 12, day: 31 }));
    assert_eq!(Date::new(2024, 0, 1), None);
    assert_eq!(Date::new(2024, 13, 1), None);
    assert_eq!(Date::new(2024, 1, 0), None);
    assert_eq!(Date::new(2024, 1, 32), None);
    assert_eq!(Date::new(10000, 1, 1), None);
    assert_eq!(Date::new(-10000, 1, 1), None);
    assert_eq!(Date::new(-9999, 1, 1), Some(Date { year: -9999, month: 1, day: 1 }));
    assert_eq!(Date::new(-4, 2, 29), Some(Date { year: -4, month: 2, day: 29 }));
    assert_eq!(Date::new(-1, 2, 29), None);
}

#[test]
fn dates_are_read_as_iso_8601() {
    assert_eq!(Date::parse("2024-03-05"), Some(Date { year: 2024, month: 3, day: 5 }));
    assert_eq!(Date::parse("2024-02-29"), Some(Date { year: 2024, month: 2, day: 29 }));
    assert_eq!(Date::parse("0001-01-01"), Some(Date { year: 1, month: 1, day: 1 }));
    assert_eq!(Date::parse("2023-02-29"), None);
    assert_eq!(Date::parse("2024-3-5"), None);
    assert_eq!(Date::parse("05.03.2024"), None);
    assert_eq!(Date::parse(""), None);
}

#[test]
fn parts_that_name_no_day_give_no_date() {
    assert_eq!(Date::from_parts(None), None);
    assert_eq!(Date::from_parts(Some((2024, 2, 30))), None);
    assert_eq!(
        Date::from_parts(Some((2024, 2, 3))),
        Some(Date { year: 2024, month: 2, day: 3 })
    );
}

#[test]
fn months_are_numbered_from_year_zero() {
    assert_eq!(Date::new(0, 1, 1).unwrap().month_index(), 0);
    assert_eq!(Date::new(2024, 3, 5).unwrap().month_index(), 2024 * 12 + 2);
    assert_eq!(Date::new(2024, 12, 5).unwrap().month_index(), 2024 * 12 + 11);
    assert_eq!(Date::new(-1, 12, 5).unwrap().month_index(), -1);
    assert_eq!(Date::new(-9999, 1, 1).unwrap().month_index(), -9999 * 12);
}

#[test]
fn dates_are_written_with_padding() {
    assert_eq!(date_to_string(Date::new(2024, 3, 5).unwrap()), "2024-03-05");
    assert_eq!(date_to_string(Date::new(2024, 12, 31).unwrap()), "2024-12-31");
    assert_eq!(date_to_string(Date::new(987, 10, 9).unwrap()), "0987-10-09");
    assert_eq!(date_to_string(Date::new(5, 1, 1).unwrap()), "0005-01-01");
    assert_eq!(date_to_string(Date::new(0, 1, 1).unwrap()), "0000-01-01");
    assert_eq!(date_to_string(Date::new(9999, 1, 1).unwrap()), "9999-01-01");
}

#[test]
fn dates_before_year_zero_are_padded_in_front_of_the_sign() {
    assert_eq!(date_to_string(Date::new(-5, 1, 1).unwrap()), format!("{:0>4}-01-01", -5));
    assert_eq!(date_to_string(Date::new(-5, 1, 1).unwrap()), "00-5-01-01");
    assert_eq!(date_to_string(Date::new(-9999, 11, 30).unwrap()), "-9999-11-30");
}
