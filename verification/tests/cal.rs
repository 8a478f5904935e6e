use chrono::{Datelike, Duration, NaiveDate};
use textkit::cal::{
    configure, format_month, format_year, last_day_in_month, parse_int, parse_month, parse_year,
    week_of_month,
};
use textkit::dates::{Date, MAX_YEAR, MIN_YEAR};

fn date_of(date: NaiveDate) -> Date {
    Date { year: date.year(), month: date.month(), day: date.day() }
}

fn check_parse_int() {
    // Parse positive int as usize
    let res = parse_int::<usize>("1");
    assert!(res.is_ok());
    assert_eq!(res.unwrap(), 1usize);

    // Parse negative int as i32
    let res = parse_int::<i32>("-1");
    assert!(res.is_ok());
    assert_eq!(res.unwrap(), -1i32);

    // Fail on a string
    let res = parse_int::<i64>("foo");
    assert!(res.is_err());
    assert_eq!(res.unwrap_err().to_string(), "Invalid integer \"foo\"");
}

fn check_parse_year() {
    let res = parse_year("1");
    assert!(res.is_ok());
    assert_eq!(res.unwrap(), 1i32);

    let res = parse_year("9999");
    assert!(res.is_ok());
    assert_eq!(res.unwrap(), 9999i32);

    let res = parse_year("0");
    assert!(res.is_err());
    assert_eq!(
        res.unwrap_err().to_string(),
        "year \"0\" not in the range 1 through 9999"
    );

    let res = parse_year("10000");
    assert!(res.is_err());
    assert_eq!(
        res.unwrap_err().to_string(),
        "year \"10000\" not in the range 1 through 9999"
    );

    let res = parse_year("foo");
    assert!(res.is_err());
}

fn check_parse_month() {
    let res = parse_month("1");
    assert!(res.is_ok());
    assert_eq!(res.unwrap(), 1u32);

    let res = parse_month("12");
    assert!(res.is_ok());
    assert_eq!(res.unwrap(), 12u32);

    let res = parse_month("jan");
    assert!(res.is_ok());
    assert_eq!(res.unwrap(), 1u32);

    let res = parse_month("0");
    assert!(res.is_err());
    assert_eq!(
        res.unwrap_err().to_string(),
        "month \"0\" not in the range 1 through 12"
    );

    let res = parse_month("13");
    assert!(res.is_err());
    assert_eq!(
        res.unwrap_err().to_string(),
        "month \"13\" not in the range 1 through 12"
    );

    let res = parse_month("foo");
    assert!(res.is_err());
    assert_eq!(res.unwrap_err().to_string(), "Invalid month \"foo\"");
}

#[test]
fn mylib_test_parse_int() {
    check_parse_int();
}

#[test]
fn mylib_2_test_parse_int() {
    check_parse_int();
}

#[test]
fn mylib_test_parse_year() {
    check_parse_year();
}

#[test]
fn mylib_2_test_parse_year() {
    check_parse_year();
}

#[test]
fn mylib_test_parse_month() {
    check_parse_month();
}

#[test]
fn mylib_2_test_parse_month() {
    check_parse_month();
}

#[test]
fn test_format_month() {
    let today = date_of(NaiveDate::from_ymd_opt(0, 1, 1).unwrap());
    let leap_february = vec![
        "   February 2020      ",
        "Su Mo Tu We Th Fr Sa  ",
        "                   1  ",
        " 2  3  4  5  6  7  8  ",
        " 9 10 11 12 13 14 15  ",
        "16 17 18 19 20 21 22  ",
        "23 24 25 26 27 28 29  ",
        "                      ",
    ];
    assert_eq!(format_month(2020, 2, true, today), leap_february);

    let may = vec![
        "        May           ",
        "Su Mo Tu We Th Fr Sa  ",
        "                1  2  ",
        " 3  4  5  6  7  8  9  ",
        "10 11 12 13 14 15 16  ",
        "17 18 19 20 21 22 23  ",
        "24 25 26 27 28 29 30  ",
        "31                    ",
    ];
    assert_eq!(format_month(2020, 5, false, today), may);

    let april_hl = vec![
        "     April 2021       ",
        "Su Mo Tu We Th Fr Sa  ",
        "             1  2  3  ",
        " 4  5  6 \u{1b}[7m7\u{1b}[0m  8  9 10  ",
        "11 12 13 14 15 16 17  ",
        "18 19 20 21 22 23 24  ",
        "25 26 27 28 29 30     ",
        "                      ",
    ];
    let today = date_of(NaiveDate::from_ymd_opt(2021, 4, 7).unwrap());
    assert_eq!(format_month(2021, 4, true, today), april_hl);
}

#[test]
fn test_last_day_in_month() {
    assert_eq!(
        last_day_in_month(2020, 1),
        date_of(NaiveDate::from_ymd_opt(2020, 1, 31).unwrap())
    );
    assert_eq!(
        last_day_in_month(2020, 2),
        date_of(NaiveDate::from_ymd_opt(2020, 2, 29).unwrap())
    );
    assert_eq!(
        last_day_in_month(2020, 4),
        date_of(NaiveDate::from_ymd_opt(2020, 4, 30).unwrap())
    );
}

#[test]
fn last_day_in_month_follows_the_leap_rule() {
    assert_eq!(last_day_in_month(1900, 2).day, 28);
    assert_eq!(last_day_in_month(2000, 2).day, 29);
    assert_eq!(last_day_in_month(2021, 2).day, 28);
    assert_eq!(last_day_in_month(2021, 12), Date { year: 2021, month: 12, day: 31 });
    assert_eq!(last_day_in_month(0, 2).day, 29);
    assert_eq!(last_day_in_month(-1, 2).day, 28);
    assert_eq!(last_day_in_month(-4, 2).day, 29);
}

// The day of the week by the rule that the library states, from Sunday = 0.
fn weekday_by_rule(year: i64, month: i64, day: i64) -> i64 {
    let leap = year.rem_euclid(4) == 0 && (year.rem_euclid(100) != 0 || year.rem_euclid(400) == 0);
    let lengths = [31, if leap { 29 } else { 28 }, 31, 30, 31, 30, 31, 31, 30, 31, 30, 31];
    let mut before = 0;
    for m in 1..month {
        before += lengths[(m - 1) as usize];
    }
    let y = year - 1;
    let days = 365 * y + y.div_euclid(4) - y.div_euclid(100) + y.div_euclid(400) + before + day;
    days.rem_euclid(7)
}

#[test]
fn week_of_month_agrees_with_the_stated_rule() {
    // Every day of a span that covers leap years, century years and the
    // years around year 1.
    let spans = [(-820, 12), (-3, 8), (1580, 30), (1890, 20), (1995, 40), (9990, 9)];
    for (start, years) in spans {
        let mut date = NaiveDate::from_ymd_opt(start, 1, 1).unwrap();
        let end = NaiveDate::from_ymd_opt(start + years, 1, 1).unwrap();
        while date < end {
            let first = weekday_by_rule(date.year() as i64, date.month() as i64, 1);
            let expected = (first + date.day() as i64 - 1) / 7 + if first == 0 { 1 } else { 0 };
            assert_eq!(week_of_month(date_of(date)) as i64, expected, "{}", date);
            assert_eq!(
                date.weekday().num_days_from_sunday() as i64,
                weekday_by_rule(date.year() as i64, date.month() as i64, date.day() as i64),
                "{}",
                date
            );
            date = date + Duration::days(1);
        }
    }
}

#[test]
fn week_of_month_counts_from_the_first_sunday() {
    // February 2020 opens on a Saturday
    assert_eq!(week_of_month(Date { year: 2020, month: 2, day: 1 }), 0);
    assert_eq!(week_of_month(Date { year: 2020, month: 2, day: 2 }), 1);
    assert_eq!(week_of_month(Date { year: 2020, month: 2, day: 29 }), 4);
    // March 2020 opens on a Sunday: week 0 stays empty
    assert_eq!(week_of_month(Date { year: 2020, month: 3, day: 1 }), 1);
    assert_eq!(week_of_month(Date { year: 2020, month: 3, day: 31 }), 5);
}

#[test]
fn format_month_that_opens_on_a_sunday() {
    let today = Date { year: 0, month: 1, day: 1 };
    let march = vec![
        "     March 2020       ",
        "Su Mo Tu We Th Fr Sa  ",
        "                      ",
        " 1  2  3  4  5  6  7  ",
        " 8  9 10 11 12 13 14  ",
        "15 16 17 18 19 20 21  ",
        "22 23 24 25 26 27 28  ",
        "29 30 31              ",
    ];
    assert_eq!(format_month(2020, 3, true, today), march);
}

#[test]
fn format_month_highlights_a_day_of_two_digits() {
    let today = Date { year: 2021, month: 4, day: 18 };
    let lines = format_month(2021, 4, true, today);
    assert_eq!(lines[5], "\u{1b}[7m18\u{1b}[0m 19 20 21 22 23 24  ");
}

#[test]
fn format_year_sets_three_months_in_a_row() {
    let today = Date { year: 0, month: 1, day: 1 };
    let lines = format_year(2020, today);
    assert_eq!(lines.len(), 37);
    assert_eq!(lines[0], "                            2020");
    assert_eq!(
        lines[1],
        "      January               February               March          "
    );
    assert_eq!(
        lines[2],
        "Su Mo Tu We Th Fr Sa  Su Mo Tu We Th Fr Sa  Su Mo Tu We Th Fr Sa  "
    );
    assert_eq!(
        lines[3],
        "          1  2  3  4                     1                        "
    );
    assert_eq!(lines[9], "");
    assert_eq!(
        lines[28],
        "      October               November              December        "
    );
    assert_eq!(lines[36], "");
}

#[test]
fn parse_month_takes_any_unambiguous_beginning() {
    assert_eq!(parse_month("Ja").unwrap(), 1);
    assert_eq!(parse_month("JUNE").unwrap(), 6);
    assert_eq!(parse_month("jul").unwrap(), 7);
    assert_eq!(parse_month("s").unwrap(), 9);
    assert_eq!(parse_month("december").unwrap(), 12);
    assert_eq!(parse_month("+7").unwrap(), 7);
    // "ju" begins June and July, "ma" begins March and May
    assert_eq!(parse_month("ju").unwrap_err(), "Invalid month \"ju\"");
    assert_eq!(parse_month("ma").unwrap_err(), "Invalid month \"ma\"");
    assert_eq!(parse_month("").unwrap_err(), "Invalid month \"\"");
    assert_eq!(parse_month("januaryx").unwrap_err(), "Invalid month \"januaryx\"");
    assert_eq!(parse_month("-1").unwrap_err(), "Invalid month \"-1\"");
}

#[test]
fn parse_int_knows_the_range_of_each_type() {
    assert_eq!(parse_int::<i32>("2147483647").unwrap(), i32::MAX);
    assert_eq!(parse_int::<i32>("-2147483648").unwrap(), i32::MIN);
    assert!(parse_int::<i32>("2147483648").is_err());
    assert!(parse_int::<i32>("-2147483649").is_err());
    assert_eq!(parse_int::<i64>("-9223372036854775808").unwrap(), i64::MIN);
    assert_eq!(parse_int::<i64>("+9223372036854775807").unwrap(), i64::MAX);
    assert!(parse_int::<i64>("9223372036854775808").is_err());
    assert_eq!(parse_int::<u64>("18446744073709551615").unwrap(), u64::MAX);
    assert!(parse_int::<u64>("18446744073709551616").is_err());
    assert_eq!(parse_int::<u32>("4294967295").unwrap(), u32::MAX);
    assert!(parse_int::<u32>("4294967296").is_err());
    assert_eq!(parse_int::<usize>("+12").unwrap(), 12);
    assert_eq!(parse_int::<usize>("007").unwrap(), 7);
    assert!(parse_int::<usize>("-0").is_err());
    assert_eq!(parse_int::<i32>("-0").unwrap(), 0);
    assert!(parse_int::<i32>("").is_err());
    assert!(parse_int::<i32>("+").is_err());
    assert!(parse_int::<i32>("-").is_err());
    assert!(parse_int::<i32>("1 ").is_err());
    assert!(parse_int::<i32>("+-1").is_err());
}

#[test]
fn configure_applies_the_defaults() {
    let today = Date { year: 2024, month: 5, day: 17 };
    let config = configure(None, None, false, today).unwrap();
    assert_eq!((config.month, config.year), (Some(5), 2024));
    let config = configure(None, None, true, today).unwrap();
    assert_eq!((config.month, config.year), (None, 2024));
    let config = configure(Some("feb"), None, false, today).unwrap();
    assert_eq!((config.month, config.year), (Some(2), 2024));
    let config = configure(None, Some("1999"), false, today).unwrap();
    assert_eq!((config.month, config.year), (None, 1999));
    let config = configure(Some("12"), Some("1999"), false, today).unwrap();
    assert_eq!((config.month, config.year), (Some(12), 1999));
    assert_eq!(config.today, today);
    assert_eq!(
        configure(Some("13"), Some("foo"), false, today).unwrap_err(),
        "month \"13\" not in the range 1 through 12"
    );
    assert_eq!(
        configure(Some("1"), Some("foo"), false, today).unwrap_err(),
        "Invalid integer \"foo\""
    );
}

#[test]
fn dates_reach_as_far_as_the_calendar_at_hand() {
    assert_eq!(NaiveDate::MIN, NaiveDate::from_ymd_opt(MIN_YEAR, 1, 1).unwrap());
    assert_eq!(NaiveDate::MAX, NaiveDate::from_ymd_opt(MAX_YEAR, 12, 31).unwrap());
    assert!(NaiveDate::from_ymd_opt(MIN_YEAR - 1, 12, 31).is_none());
    assert!(NaiveDate::from_ymd_opt(MAX_YEAR + 1, 1, 1).is_none());
    for year in [MIN_YEAR, MIN_YEAR + 1, MAX_YEAR - 1, MAX_YEAR] {
        for month in 1..=12 {
            if year == MAX_YEAR && month == 12 {
                continue;
            }
            let last = last_day_in_month(year, month);
            let next = NaiveDate::from_ymd_opt(last.year, last.month, last.day)
                .unwrap()
                .succ_opt()
                .unwrap();
            assert_eq!(next.day(), 1);
            let first = weekday_by_rule(year as i64, month as i64, 1);
            let expected = (first + last.day as i64 - 1) / 7 + if first == 0 { 1 } else { 0 };
            assert_eq!(week_of_month(last) as i64, expected);
        }
    }
    assert_eq!(week_of_month(Date { year: MAX_YEAR, month: 12, day: 31 }), 5);
}
