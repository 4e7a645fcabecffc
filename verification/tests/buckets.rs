use mess::calendar::{CalendarDay, WeekBucket};
use mess::decimal::{signed_decimal, unsigned_decimal};
use mess::name::{Directory, NameParseError};
use mess::resolver::{bucket_path, resolve, resolve_named, NewAction};

fn day(year: i32, month: u32, day: u32) -> CalendarDay {
    CalendarDay { year, month, day }
}

fn texts(parts: &[&str]) -> Vec<String> {
    parts.iter().map(|part| part.to_string()).collect()
}

#[test]
fn unsigned_numerals() {
    assert_eq!(unsigned_decimal(0), "0");
    assert_eq!(unsigned_decimal(7), "7");
    assert_eq!(unsigned_decimal(10), "10");
    assert_eq!(unsigned_decimal(53), "53");
    assert_eq!(unsigned_decimal(u32::MAX), "4294967295");
}

#[test]
fn signed_numerals() {
    assert_eq!(signed_decimal(0), "0");
    assert_eq!(signed_decimal(2024), "2024");
    assert_eq!(signed_decimal(-5), "-5");
    assert_eq!(signed_decimal(i32::MAX), "2147483647");
    assert_eq!(signed_decimal(i32::MIN), "-2147483648");
}

#[test]
fn numerals_are_not_padded() {
    assert_eq!(unsigned_decimal(5), "5");
    assert_eq!(signed_decimal(987), "987");
}

#[test]
fn week_in_the_middle_of_a_year() {
    assert_eq!(
        WeekBucket::containing(day(2023, 2, 15)),
        Some(WeekBucket { year: 2023, week: 7 })
    );
}

#[test]
fn first_days_of_january_can_belong_to_the_year_before() {
    assert_eq!(
        WeekBucket::containing(day(2021, 1, 3)),
        Some(WeekBucket { year: 2020, week: 53 })
    );
    assert_eq!(
        WeekBucket::containing(day(2021, 1, 4)),
        Some(WeekBucket { year: 2021, week: 1 })
    );
}

#[test]
fn last_days_of_december_can_belong_to_the_year_after() {
    assert_eq!(
        WeekBucket::containing(day(2024, 12, 30)),
        Some(WeekBucket { year: 2025, week: 1 })
    );
    assert_eq!(
        WeekBucket::containing(day(2024, 12, 29)),
        Some(WeekBucket { year: 2024, week: 52 })
    );
}

#[test]
fn week_starts_on_monday() {
    let sunday = WeekBucket::containing(day(2024, 3, 10)).unwrap();
    let monday = WeekBucket::containing(day(2024, 3, 11)).unwrap();
    assert_eq!(sunday, WeekBucket { year: 2024, week: 10 });
    assert_eq!(monday, WeekBucket { year: 2024, week: 11 });
}

#[test]
fn days_that_do_not_exist_have_no_bucket() {
    assert_eq!(WeekBucket::containing(day(2024, 2, 30)), None);
    assert_eq!(WeekBucket::containing(day(2023, 2, 29)), None);
    assert_eq!(WeekBucket::containing(day(1900, 2, 29)), None);
    assert_eq!(WeekBucket::containing(day(2023, 4, 31)), None);
    assert_eq!(WeekBucket::containing(day(2023, 0, 1)), None);
    assert_eq!(WeekBucket::containing(day(2023, 13, 1)), None);
    assert_eq!(WeekBucket::containing(day(2023, 1, 0)), None);
    assert_eq!(WeekBucket::containing(day(2023, 1, 32)), None);
}

#[test]
fn leap_days_exist() {
    assert!(WeekBucket::containing(day(2024, 2, 29)).is_some());
    assert!(WeekBucket::containing(day(2000, 2, 29)).is_some());
    assert!(WeekBucket::containing(day(-4, 2, 29)).is_some());
}

#[test]
fn years_out_of_range_have_no_bucket() {
    assert!(WeekBucket::containing(day(262142, 12, 31)).is_some());
    assert!(WeekBucket::containing(day(-262143, 1, 1)).is_some());
    assert_eq!(WeekBucket::containing(day(262143, 1, 1)), None);
    assert_eq!(WeekBucket::containing(day(-262144, 12, 31)), None);
    assert_eq!(WeekBucket::containing(day(400000, 1, 1)), None);
}

#[test]
fn every_day_of_a_leap_year_has_a_week_from_1_to_53() {
    let lengths = [31, 29, 31, 30, 31, 30, 31, 31, 30, 31, 30, 31];
    for month in 1..=12u32 {
        for d in 1..=31u32 {
            let found = WeekBucket::containing(day(2020, month, d));
            if d <= lengths[(month - 1) as usize] {
                let bucket = found.unwrap();
                assert!(1 <= bucket.week && bucket.week <= 53);
                assert!(2019 <= bucket.year && bucket.year <= 2021);
            } else {
                assert_eq!(found, None);
            }
        }
    }
}

#[test]
fn bucket_components_are_year_then_week() {
    let bucket = WeekBucket { year: 2024, week: 5 };
    assert_eq!(bucket.components(), texts(&["2024", "5"]));
    let early = WeekBucket { year: -44, week: 11 };
    assert_eq!(early.components(), texts(&["-44", "11"]));
}

#[test]
fn bucket_path_of_a_day() {
    assert_eq!(bucket_path(day(2021, 1, 3)), Some(texts(&["2020", "53"])));
    assert_eq!(bucket_path(day(2023, 2, 15)), Some(texts(&["2023", "7"])));
    assert_eq!(bucket_path(day(2023, 2, 29)), None);
}

#[test]
fn bucket_path_is_the_same_each_time() {
    let first = bucket_path(day(2022, 6, 1));
    let second = bucket_path(day(2022, 6, 1));
    assert_eq!(first, second);
    assert_eq!(first, Some(texts(&["2022", "22"])));
}

#[test]
fn new_without_a_name_reports_the_bucket() {
    let bucket = WeekBucket { year: 2023, week: 7 };
    assert_eq!(resolve(&bucket, None), texts(&["2023", "7"]));
    assert_eq!(resolve_named(&bucket, None), Ok(texts(&["2023", "7"])));
}

#[test]
fn new_with_a_name_ends_in_the_name() {
    let bucket = WeekBucket { year: 2023, week: 7 };
    let name = Directory::from_str("thesis").unwrap();
    let path = resolve(&bucket, Some(&name));
    assert_eq!(path, texts(&["2023", "7", "thesis"]));
    assert_eq!(path.last().unwrap(), "thesis");
    assert_eq!(
        resolve_named(&bucket, Some("thesis")),
        Ok(texts(&["2023", "7", "thesis"]))
    );
}

#[test]
fn new_refuses_a_name_with_a_separator() {
    let bucket = WeekBucket { year: 2023, week: 7 };
    assert_eq!(
        resolve_named(&bucket, Some("a/b")),
        Err(NameParseError::ContainsPathSeparator)
    );
    assert_eq!(
        resolve_named(&bucket, Some("")),
        Err(NameParseError::ContainsPathSeparator)
    );
}

#[test]
fn new_twice_reports_the_same_path() {
    let bucket = WeekBucket::containing(day(2023, 2, 15)).unwrap();
    let first = resolve_named(&bucket, Some("thesis")).unwrap();
    let again = WeekBucket::containing(day(2023, 2, 15)).unwrap();
    let second = resolve_named(&again, Some("thesis")).unwrap();
    assert_eq!(first, second);
    assert_eq!(NewAction::for_directory(false), NewAction::Create);
    assert_eq!(NewAction::for_directory(true), NewAction::Keep);
}

fn leap(year: i32) -> bool {
    year.rem_euclid(4) == 0 && (year.rem_euclid(100) != 0 || year.rem_euclid(400) == 0)
}

#[test]
fn a_bucket_exists_exactly_for_the_days_of_the_calendar() {
    for year in [-100, -4, 0, 1900, 2000, 2023, 2024, 2100] {
        for month in 0..=13u32 {
            for d in 0..=32u32 {
                let length = match month {
                    2 => {
                        if leap(year) {
                            29
                        } else {
                            28
                        }
                    }
                    4 | 6 | 9 | 11 => 30,
                    1 | 3 | 5 | 7 | 8 | 10 | 12 => 31,
                    _ => 0,
                };
                let exists = 1 <= d && d <= length;
                assert_eq!(WeekBucket::containing(day(year, month, d)).is_some(), exists);
            }
        }
    }
}

#[test]
fn seven_days_from_monday_share_a_bucket() {
    let monday = WeekBucket::containing(day(2024, 4, 29)).unwrap();
    assert_eq!(monday, WeekBucket { year: 2024, week: 18 });
    for d in 1..=5u32 {
        assert_eq!(WeekBucket::containing(day(2024, 5, d)), Some(monday));
    }
    assert_eq!(
        WeekBucket::containing(day(2024, 5, 6)),
        Some(WeekBucket { year: 2024, week: 19 })
    );
}
