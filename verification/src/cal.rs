//! The calendar of a month or of a year, and the reading of its arguments.
//!
//! A month is shown in eight lines of 22 characters: its name, the names of
//! the days of the week from Sunday on, and six weeks. Week 1 opens with the
//! first Sunday of the month; the days before that Sunday stand in week 0,
//! which stays blank where the month itself opens on a Sunday.
use vstd::prelude::*;
use vstd::string::StringExecFns;
use crate::dates::{
    Date, MIN_YEAR, MAX_YEAR, days_in_month, weekday_from_sunday, weekday_of, previous_day,
};
use crate::paint::{reversed, paint_reverse};
use crate::align::{right_aligned, left_aligned, centered, pad_left, pad_right, pad_center};
use crate::case::{is_prefix_ignoring_case, starts_with_ignoring_case};
use crate::numbers::{FromDecimal, decimal_digits, signed_digits, to_decimal, to_signed_decimal};
use crate::text::chars_of;

verus! {

/// The message that rejects `val` as a number.
pub open spec fn invalid_integer_message(val: Seq<char>) -> Seq<char> {
    "Invalid integer \""@ + val + "\""@
}

/// The message that rejects the number `year` as a year.
pub open spec fn year_range_message(year: Seq<char>) -> Seq<char> {
    "year \""@ + year + "\" not in the range 1 through 9999"@
}

/// The message that rejects the number `month` as a month.
pub open spec fn month_range_message(month: Seq<char>) -> Seq<char> {
    "month \""@ + month + "\" not in the range 1 through 12"@
}

/// The message that rejects `month` as the name of a month.
pub open spec fn invalid_month_message(month: Seq<char>) -> Seq<char> {
    "Invalid month \""@ + month + "\""@
}

/// The English name of a month.
pub open spec fn month_name(month: int) -> Seq<char> {
    if month == 1 {
        "January"@
    } else if month == 2 {
        "February"@
    } else if month == 3 {
        "March"@
    } else if month == 4 {
        "April"@
    } else if month == 5 {
        "May"@
    } else if month == 6 {
        "June"@
    } else if month == 7 {
        "July"@
    } else if month == 8 {
        "August"@
    } else if month == 9 {
        "September"@
    } else if month == 10 {
        "October"@
    } else if month == 11 {
        "November"@
    } else {
        "December"@
    }
}

/// `text` is a beginning of the name of month `month`, capitals and small
/// letters taken alike. The empty text is a beginning of every name.
pub open spec fn names_month(text: Seq<char>, month: int) -> bool {
    1 <= month <= 12 && is_prefix_ignoring_case(text, month_name(month))
}

/// `text` is a beginning of the name of month `month` and of no other.
pub open spec fn names_only(text: Seq<char>, month: int) -> bool {
    names_month(text, month) && forall|other: int| names_month(text, other) ==> other == month
}

/// The name of month `month`.
pub fn name_of_month(month: u32) -> (name: &'static str)
    requires
        1 <= month <= 12,
    ensures
        name@ == month_name(month as int),
{
    match month {
        1 => "January",
        2 => "February",
        3 => "March",
        4 => "April",
        5 => "May",
        6 => "June",
        7 => "July",
        8 => "August",
        9 => "September",
        10 => "October",
        11 => "November",
        _ => "December",
    }
}

fn quoted(before: &str, val: &str, after: &str) -> (message: String)
    ensures
        message@ == before@ + val@ + after@,
{
    let mut message = String::from_str(before);
    message.append(val);
    message.append(after);
    message
}

/// Reads `val` as a number of the type `T`.
pub fn parse_int<T: FromDecimal>(val: &str) -> (r: Result<T, String>)
    ensures
        match r {
            Ok(n) => T::read(val@) == Some(n),
            Err(message) => T::read(val@) is None && message@ == invalid_integer_message(val@),
        },
{
    match T::from_decimal(val) {
        Some(n) => Ok(n),
        None => Err(quoted("Invalid integer \"", val, "\"")),
    }
}

/// Reads `year` as a year from 1 to 9999.
pub fn parse_year(year: &str) -> (r: Result<i32, String>)
    ensures
        match r {
            Ok(n) => i32::read(year@) == Some(n) && 1 <= n <= 9999,
            Err(message) => match i32::read(year@) {
                Some(n) => !(1 <= n <= 9999) && message@ == year_range_message(year@),
                None => message@ == invalid_integer_message(year@),
            },
        },
{
    match parse_int::<i32>(year) {
        Ok(n) => if 1 <= n && n <= 9999 {
            Ok(n)
        } else {
            Err(quoted("year \"", year, "\" not in the range 1 through 9999"))
        },
        Err(message) => Err(message),
    }
}

/// Reads `month` as a month: a number from 1 to 12, or a beginning of the
/// name of exactly one month, in capitals or small letters.
pub fn parse_month(month: &str) -> (r: Result<u32, String>)
    ensures
        match r {
            Ok(m) => match u32::read(month@) {
                Some(n) => n == m && 1 <= n <= 12,
                None => names_only(month@, m as int),
            },
            Err(message) => match u32::read(month@) {
                Some(n) => !(1 <= n <= 12) && message@ == month_range_message(month@),
                None => (forall|m: int| !names_only(month@, m)) && message@
                    == invalid_month_message(month@),
            },
        },
{
    match parse_int::<u32>(month) {
        Ok(n) => if 1 <= n && n <= 12 {
            Ok(n)
        } else {
            Err(quoted("month \"", month, "\" not in the range 1 through 12"))
        },
        Err(_) => {
            let text = chars_of(month);
            let mut found: Option<u32> = None;
            let mut several = false;
            let ghost mut other: int = 0;
            let mut m: u32 = 1;
            while m <= 12
                invariant
                    1 <= m <= 13,
                    text@ == month@,
                    found is None ==> !several && forall|k: int|
                        1 <= k < m ==> !names_month(month@, k),
                    found matches Some(f) ==> 1 <= f < m && names_month(month@, f as int),
                    found is Some && !several ==> forall|k: int|
                        1 <= k < m && names_month(month@, k) ==> k == found->0,
                    several ==> found is Some && names_month(month@, other) && other
                        != found->0,
                decreases 13 - m,
            {
                let name = chars_of(name_of_month(m));
                if starts_with_ignoring_case(name.as_slice(), text.as_slice()) {
                    match found {
                        None => {
                            found = Some(m);
                        },
                        Some(_) => {
                            several = true;
                            proof {
                                other = m as int;
                            }
                        },
                    }
                }
                m += 1;
            }
            match found {
                Some(f) => if several {
                    Err(quoted("Invalid month \"", month, "\""))
                } else {
                    Ok(f)
                },
                None => Err(quoted("Invalid month \"", month, "\"")),
            }
        },
    }
}

/// The last day of a month.
pub fn last_day_in_month(year: i32, month: u32) -> (last: Date)
    requires
        MIN_YEAR <= year <= MAX_YEAR,
        1 <= month <= 12,
        month == 12 ==> year < MAX_YEAR,
    ensures
        last == (Date { year, month, day: days_in_month(year as int, month as int) as u32 }),
        last.is_valid(),
{
    let next_month = if month == 12 {
        Date { year: year + 1, month: 1, day: 1 }
    } else {
        Date { year, month: month + 1, day: 1 }
    };
    previous_day(next_month)
}

/// The week of its month in which a day stands, where the first Sunday of
/// the month opens week 1 and the days before it stand in week 0. The month
/// opens on the day of the week `first_weekday`, counted from Sunday, which
/// is 0.
pub open spec fn week_in_month(first_weekday: int, day: int) -> int {
    (first_weekday + day - 1) / 7 + if first_weekday == 0 {
        1int
    } else {
        0int
    }
}

/// The week of its month in which `date` stands.
pub fn week_of_month(date: Date) -> (week: u32)
    requires
        date.is_valid(),
    ensures
        week == week_in_month(
            weekday_from_sunday(date.year as int, date.month as int, 1),
            date.day as int,
        ),
        week <= 5,
{
    let first = weekday_of(Date { year: date.year, month: date.month, day: 1 });
    let shift: u32 = if first == 0 {
        1
    } else {
        0
    };
    (first + date.day - 1) / 7 + shift
}

/// The day of the month that stands in week `week` under the day of the
/// week `weekday`, in a month that opens on `first_weekday`. Where the number
/// is below 1 or above the month's last day the place is blank.
pub open spec fn day_at(first_weekday: int, week: int, weekday: int) -> int {
    7 * (week - if first_weekday == 0 {
        1int
    } else {
        0int
    }) + weekday - first_weekday + 1
}

/// Each day of a month stands in the week that `week_in_month` gives, under
/// its day of the week, and in one of the six weeks that a month is shown
/// in.
pub proof fn lemma_day_stands_in_its_week(first_weekday: int, day: int)
    requires
        0 <= first_weekday < 7,
        1 <= day <= 31,
    ensures
        0 <= week_in_month(first_weekday, day) <= 5,
        day_at(first_weekday, week_in_month(first_weekday, day), (first_weekday + day - 1) % 7)
            == day,
{
}

/// The two characters of one place of the calendar: blank, the day set to
/// the right, or, for today, the day in reverse video without a blank before
/// it.
pub open spec fn cell(year: int, month: int, today: Date, week: int, weekday: int) -> Seq<char> {
    let day = day_at(weekday_from_sunday(year, month, 1), week, weekday);
    if day < 1 || day > days_in_month(year, month) {
        "  "@
    } else if today.year == year && today.month == month && today.day == day {
        reversed(decimal_digits(day as nat))
    } else {
        right_aligned(decimal_digits(day as nat), 2)
    }
}

/// The first `n` places of a week with a blank between each two.
pub open spec fn week_cells(year: int, month: int, today: Date, week: int, n: int) -> Seq<char>
    decreases n,
{
    if n <= 0 {
        Seq::empty()
    } else if n == 1 {
        cell(year, month, today, week, 0)
    } else {
        week_cells(year, month, today, week, n - 1) + " "@ + cell(year, month, today, week, n - 1)
    }
}

/// The text over a month: its name, and the year where it is wanted.
pub open spec fn month_title(year: int, month: int, print_year: bool) -> Seq<char> {
    if print_year {
        month_name(month) + " "@ + signed_digits(year)
    } else {
        month_name(month)
    }
}

/// Line `i` of the eight lines of a month: the title in the middle of 20
/// characters, the days of the week, and the six weeks, each set to the left
/// of 20 characters; two blanks end every line.
pub open spec fn month_line(year: int, month: int, print_year: bool, today: Date, i: int) -> Seq<
    char,
> {
    if i == 0 {
        centered(month_title(year, month, print_year), 20) + "  "@
    } else if i == 1 {
        "Su Mo Tu We Th Fr Sa"@ + "  "@
    } else {
        left_aligned(week_cells(year, month, today, i - 2, 7), 20) + "  "@
    }
}

fn format_cell(
    year: i32,
    month: u32,
    today: Date,
    first: u32,
    last: u32,
    week: u32,
    weekday: u32,
) -> (text: String)
    requires
        first == weekday_from_sunday(year as int, month as int, 1),
        last == days_in_month(year as int, month as int),
        first < 7,
        week < 6,
        weekday < 7,
    ensures
        text@ == cell(year as int, month as int, today, week as int, weekday as int),
{
    let shift: i64 = if first == 0 {
        1
    } else {
        0
    };
    let day: i64 = 7 * (week as i64 - shift) + weekday as i64 - first as i64 + 1;
    if day < 1 || day > last as i64 {
        String::from_str("  ")
    } else {
        let digits = to_decimal(day as u64);
        if today.year == year && today.month == month && today.day as i64 == day {
            paint_reverse(digits.as_str())
        } else {
            pad_left(digits.as_str(), 2)
        }
    }
}

fn format_week(
    year: i32,
    month: u32,
    today: Date,
    first: u32,
    last: u32,
    week: u32,
) -> (line: String)
    requires
        first == weekday_from_sunday(year as int, month as int, 1),
        last == days_in_month(year as int, month as int),
        first < 7,
        week < 6,
    ensures
        line@ == month_line(year as int, month as int, false, today, week + 2),
{
    let mut cells = String::new();
    let mut weekday: u32 = 0;
    while weekday < 7
        invariant
            weekday <= 7,
            first == weekday_from_sunday(year as int, month as int, 1),
            last == days_in_month(year as int, month as int),
            first < 7,
            week < 6,
            cells@ == week_cells(year as int, month as int, today, week as int, weekday as int),
        decreases 7 - weekday,
    {
        if weekday > 0 {
            cells.append(" ");
        }
        let text = format_cell(year, month, today, first, last, week, weekday);
        cells.append(text.as_str());
        weekday += 1;
    }
    let mut line = pad_right(cells.as_str(), 20);
    line.append("  ");
    line
}

/// Shows a month in eight lines. The year stands beside the month's name
/// where `print_year` is set, and `today` is highlighted where it falls in
/// the month.
pub fn format_month(year: i32, month: u32, print_year: bool, today: Date) -> (lines: Vec<String>)
    requires
        MIN_YEAR <= year <= MAX_YEAR,
        1 <= month <= 12,
        month == 12 ==> year < MAX_YEAR,
    ensures
        lines@.len() == 8,
        forall|i: int|
            0 <= i < 8 ==> (#[trigger] lines@[i])@ == month_line(
                year as int,
                month as int,
                print_year,
                today,
                i,
            ),
{
    let last = last_day_in_month(year, month).day;
    let first = weekday_of(Date { year, month, day: 1 });
    let mut title = String::from_str(name_of_month(month));
    if print_year {
        title.append(" ");
        title.append(to_signed_decimal(year as i64).as_str());
    }
    let mut header = pad_center(title.as_str(), 20);
    header.append("  ");
    let mut names = String::from_str("Su Mo Tu We Th Fr Sa");
    names.append("  ");
    let mut lines: Vec<String> = Vec::new();
    lines.push(header);
    lines.push(names);
    let mut week: u32 = 0;
    while week < 6
        invariant
            week <= 6,
            first == weekday_from_sunday(year as int, month as int, 1),
            last == days_in_month(year as int, month as int),
            first < 7,
            lines@.len() == week + 2,
            forall|i: int|
                0 <= i < week + 2 ==> (#[trigger] lines@[i])@ == month_line(
                    year as int,
                    month as int,
                    print_year,
                    today,
                    i,
                ),
        decreases 6 - week,
    {
        let line = format_week(year, month, today, first, last, week);
        lines.push(line);
        week += 1;
    }
    lines
}

/// Line `i` of the 37 lines of a year: the year set to the right of 32
/// characters, and then four rows of three months side by side, each row
/// followed by an empty line.
pub open spec fn year_line(year: int, today: Date, i: int) -> Seq<char> {
    let row = (i - 1) / 9;
    let k = (i - 1) % 9;
    if i == 0 {
        right_aligned(signed_digits(year), 32)
    } else if k == 8 {
        Seq::empty()
    } else {
        month_line(year, 3 * row + 1, false, today, k) + month_line(
            year,
            3 * row + 2,
            false,
            today,
            k,
        ) + month_line(year, 3 * row + 3, false, today, k)
    }
}

/// Sets three months side by side, line by line.
fn beside(left: &Vec<String>, middle: &Vec<String>, right: &Vec<String>) -> (lines: Vec<String>)
    requires
        left@.len() == 8,
        middle@.len() == 8,
        right@.len() == 8,
    ensures
        lines@.len() == 8,
        forall|k: int|
            0 <= k < 8 ==> (#[trigger] lines@[k])@ == left@[k]@ + middle@[k]@ + right@[k]@,
{
    let mut lines: Vec<String> = Vec::new();
    let mut k: usize = 0;
    while k < 8
        invariant
            k <= 8,
            left@.len() == 8,
            middle@.len() == 8,
            right@.len() == 8,
            lines@.len() == k,
            forall|j: int|
                0 <= j < k ==> (#[trigger] lines@[j])@ == left@[j]@ + middle@[j]@ + right@[j]@,
        decreases 8 - k,
    {
        let mut line = left[k].clone();
        line.append(middle[k].as_str());
        line.append(right[k].as_str());
        lines.push(line);
        k += 1;
    }
    lines
}

/// The nine lines of one row of a year: three months side by side and an
/// empty line.
fn format_row(year: i32, row: u32, today: Date) -> (lines: Vec<String>)
    requires
        MIN_YEAR <= year < MAX_YEAR,
        row < 4,
    ensures
        lines@.len() == 9,
        forall|k: int|
            0 <= k < 9 ==> (#[trigger] lines@[k])@ == year_line(
                year as int,
                today,
                1 + 9 * row + k,
            ),
{
    let left = format_month(year, 3 * row + 1, false, today);
    let middle = format_month(year, 3 * row + 2, false, today);
    let right = format_month(year, 3 * row + 3, false, today);
    let mut lines = beside(&left, &middle, &right);
    lines.push(String::new());
    assert forall|k: int| 0 <= k < 9 implies (#[trigger] lines@[k])@ == year_line(
        year as int,
        today,
        1 + 9 * row + k,
    ) by {
        let i = 1 + 9 * row + k;
        assert((i - 1) / 9 == row && (i - 1) % 9 == k) by (nonlinear_arith)
            requires
                i == 1 + 9 * row + k,
                0 <= k < 9,
        ;
    }
    lines
}

/// Shows the twelve months of a year in 37 lines.
pub fn format_year(year: i32, today: Date) -> (lines: Vec<String>)
    requires
        MIN_YEAR <= year < MAX_YEAR,
    ensures
        lines@.len() == 37,
        forall|i: int| 0 <= i < 37 ==> (#[trigger] lines@[i])@ == year_line(year as int, today, i),
{
    let mut lines: Vec<String> = Vec::new();
    lines.push(pad_left(to_signed_decimal(year as i64).as_str(), 32));
    let mut row: u32 = 0;
    while row < 4
        invariant
            row <= 4,
            MIN_YEAR <= year < MAX_YEAR,
            lines@.len() == 1 + 9 * row,
            forall|i: int|
                0 <= i < 1 + 9 * row ==> (#[trigger] lines@[i])@ == year_line(
                    year as int,
                    today,
                    i,
                ),
        decreases 4 - row,
    {
        let mut block = format_row(year, row, today);
        lines.append(&mut block);
        row += 1;
    }
    lines
}

/// `text` is understood as a month.
pub open spec fn parse_month_accepts(text: Seq<char>) -> bool {
    match u32::read(text) {
        Some(n) => 1 <= n <= 12,
        None => exists|m: int| names_only(text, m),
    }
}

/// The month that `text` is understood as.
pub open spec fn month_read(text: Seq<char>) -> u32 {
    match u32::read(text) {
        Some(n) => n,
        None => (choose|m: int| names_only(text, m)) as u32,
    }
}

/// The message that rejects `text` as a month.
pub open spec fn month_failure(text: Seq<char>) -> Seq<char> {
    if u32::read(text) is Some {
        month_range_message(text)
    } else {
        invalid_month_message(text)
    }
}

/// `text` is understood as a year.
pub open spec fn parse_year_accepts(text: Seq<char>) -> bool {
    i32::read(text) matches Some(n) && 1 <= n <= 9999
}

/// The message that rejects `text` as a year.
pub open spec fn year_failure(text: Seq<char>) -> Seq<char> {
    if i32::read(text) is Some {
        year_range_message(text)
    } else {
        invalid_integer_message(text)
    }
}

/// What to show.
#[derive(Debug)]
pub struct Config {
    pub month: Option<u32>,
    pub year: i32,
    pub today: Date,
}

/// Makes the settings of a run from its arguments as they were typed.
///
/// The month is read first and then the year, and the first that is not
/// understood is the error. With `show_current_year`, the whole of this year
/// is shown; without any argument, this month; with a month alone, that
/// month of this year; with a year alone, the whole of that year.
pub fn configure(
    month: Option<&str>,
    year: Option<&str>,
    show_current_year: bool,
    today: Date,
) -> (r: Result<Config, String>)
    ensures
        match r {
            Ok(config) => {
                &&& config.today == today
                &&& month matches Some(text) ==> parse_month_accepts(text@)
                &&& year matches Some(text) ==> parse_year_accepts(text@)
                &&& config.month == if show_current_year {
                    None
                } else {
                    match month {
                        Some(text) => Some(month_read(text@)),
                        None => if year is None {
                            Some(today.month)
                        } else {
                            None
                        },
                    }
                }
                &&& config.year == if show_current_year {
                    today.year
                } else {
                    match year {
                        Some(text) => i32::read(text@)->0,
                        None => today.year,
                    }
                }
            },
            Err(message) => match month {
                Some(text) if !parse_month_accepts(text@) => message@ == month_failure(text@),
                _ => year matches Some(text) && !parse_year_accepts(text@) && message@
                    == year_failure(text@),
            },
        },
{
    let month_read = match month {
        Some(text) => match parse_month(text) {
            Ok(m) => Some(m),
            Err(message) => {
                return Err(message);
            },
        },
        None => None,
    };
    let year_read = match year {
        Some(text) => match parse_year(text) {
            Ok(y) => Some(y),
            Err(message) => {
                return Err(message);
            },
        },
        None => None,
    };
    if show_current_year {
        Ok(Config { month: None, year: today.year, today })
    } else if month_read.is_none() && year_read.is_none() {
        Ok(Config { month: Some(today.month), year: today.year, today })
    } else {
        let year = match year_read {
            Some(y) => y,
            None => today.year,
        };
        Ok(Config { month: month_read, year, today })
    }
}

} // verus!
