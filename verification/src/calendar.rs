//! Calendar dates: reading `year-month-day`, and the day of the week.

use vstd::prelude::*;
use vstd::string::*;

use crate::decimal::all_digits;
use crate::decimal::digits_value;
use crate::decimal::is_digit;
use crate::decimal::lemma_digits_value_grows;
use crate::decimal::parse_i32;
use crate::decimal::parsed_i32;
use crate::error::Failure;
use crate::error::WeatherError;
use crate::text::join;
use crate::text::join_then_split;
use crate::text::optional_text;
use crate::text::split;
use crate::text::split_text;
use crate::text::views;

verus! {

// ---------------------------------------------------------------------------
// Months and years
// ---------------------------------------------------------------------------

/// Whether `year` has a 29 February in the Gregorian calendar.
pub open spec fn leap_year(year: int) -> bool {
    (year % 4 == 0 && year % 100 != 0) || year % 400 == 0
}

/// The number of days of a month; 0 where there is no such month.
pub open spec fn month_length(year: int, month: int) -> int {
    if month == 4 || month == 6 || month == 9 || month == 11 {
        30
    } else if month == 2 {
        if leap_year(year) {
            29
        } else {
            28
        }
    } else if 1 <= month <= 12 {
        31
    } else {
        0
    }
}

/// Whether the calendar has the day `day` of the month `month` of the year `year`.
pub open spec fn valid_date(year: int, month: int, day: int) -> bool {
    1 <= month <= 12 && 1 <= day <= month_length(year, month)
}

/// Whether `year` has a 29 February.
pub fn is_leap_year(year: i32) -> (leap: bool)
    ensures
        leap == leap_year(year as int),
{
    let fourth: bool = is_multiple(year, 4);
    let hundredth: bool = is_multiple(year, 100);
    let four_hundredth: bool = is_multiple(year, 400);
    (fourth && !hundredth) || four_hundredth
}

/// Whether `value` is a multiple of `divisor`.
fn is_multiple(value: i32, divisor: i32) -> (multiple: bool)
    requires
        divisor > 0,
    ensures
        multiple == (value as int % divisor as int == 0),
{
    proof {
        if value < 0 {
            lemma_multiple_of_negative(value as int, divisor as int);
        }
    }
    value % divisor == 0
}

proof fn lemma_multiple_of_negative(value: int, divisor: int)
    requires
        divisor > 0,
    ensures
        (-value) % divisor == 0 <==> value % divisor == 0,
{
    lemma_multiple_of_opposite(value, divisor);
    lemma_multiple_of_opposite(-value, divisor);
}

proof fn lemma_multiple_of_opposite(value: int, divisor: int)
    requires
        divisor > 0,
    ensures
        value % divisor == 0 ==> (-value) % divisor == 0,
{
    if value % divisor == 0 {
        let factor = value / divisor;
        vstd::arithmetic::div_mod::lemma_fundamental_div_mod(value, divisor);
        assert(-value == (-factor) * divisor) by (nonlinear_arith)
            requires
                value == divisor * factor,
        ;
        vstd::arithmetic::div_mod::lemma_mod_multiples_basic(-factor, divisor);
    }
}

/// The number of days of a month; 0 where there is no such month.
pub fn max_day_in_month(year: i32, month: i32) -> (days: i32)
    ensures
        days == month_length(year as int, month as int),
{
    match month {
        1 | 3 | 5 | 7 | 8 | 10 | 12 => 31,
        4 | 6 | 9 | 11 => 30,
        2 => if is_leap_year(year) {
            29
        } else {
            28
        },
        _ => 0,
    }
}

// ---------------------------------------------------------------------------
// The day of the week
// ---------------------------------------------------------------------------

/// The number of days in the years from 0 up to, not including, `year`; counted backwards, and
/// negative, for years before 0.
pub open spec fn days_before_year(year: int) -> int
    decreases (if year >= 0 { year } else { -year }),
{
    if year == 0 {
        0
    } else if year > 0 {
        days_before_year(year - 1) + year_length(year - 1)
    } else {
        days_before_year(year + 1) - year_length(year)
    }
}

/// The number of days of a year.
pub open spec fn year_length(year: int) -> int {
    if leap_year(year) {
        366
    } else {
        365
    }
}

/// The number of days of `year` in the months before `month`.
pub open spec fn days_before_month(year: int, month: int) -> int
    decreases month,
{
    if month <= 1 {
        0
    } else {
        days_before_month(year, month - 1) + month_length(year, month - 1)
    }
}

/// The number of a date, counted day by day: 1 January of the year 0 is day 1.
pub open spec fn day_number(year: int, month: int, day: int) -> int {
    days_before_year(year) + days_before_month(year, month) + day
}

/// The year that a month belongs to where years start in March.
pub open spec fn march_year(year: int, month: int) -> int {
    if month < 3 {
        year - 1
    } else {
        year
    }
}

/// By how many days the day of the week runs ahead of the calendar: never from 1 March of the
/// year 0 on. Before that date leap days are rounded towards it, so that the day of the week is
/// one ahead, except in the twelve months from the first of March behind a leap day.
pub open spec fn day_slip(year: int, month: int) -> int {
    if march_year(year, month) >= 0 || leap_year(march_year(year, month)) {
        0
    } else {
        1
    }
}

/// The day of the week, counted from Sunday as 0: days are counted one by one from 1 January of
/// the year 0, a Saturday.
pub open spec fn weekday_of(year: int, month: int, day: int) -> int {
    (day_number(year, month, day) + 5 + day_slip(year, month)) % 7
}

/// The quotient, rounded towards zero.
spec fn truncated_quotient(value: int, divisor: int) -> int {
    if value >= 0 {
        value / divisor
    } else {
        -((-value) / divisor)
    }
}

/// What a month adds to the day of the week, for years that start in March.
spec fn month_offset(month: int) -> int {
    seq![0int, 3, 2, 5, 0, 3, 5, 1, 4, 6, 2, 4][month - 1]
}

/// The sum that gives the day of the week: one day for each year, one more for each leap day
/// among them, the offset of the month and the day.
spec fn weekday_sum(year: int, month: int, day: int) -> int {
    let y = march_year(year, month);
    y + truncated_quotient(y, 4) - truncated_quotient(y, 100) + truncated_quotient(y, 400)
        + month_offset(month) + day
}

/// Whole weeks apart, the sum counts the days of the calendar.
proof fn lemma_sum_counts_days(year: int, month: int, day: int)
    requires
        1 <= month <= 12,
    ensures
        weekday_sum(year, month, day) % 7 == weekday_of(year, month, day),
{
    lemma_days_before_year(year);
    let weeks = lemma_days_before_month(year, month);
    let y = march_year(year, month);
    let leap_day: int = if month >= 3 && leap_year(year) {
        1
    } else {
        0
    };
    assert(days_before_year(year) + leap_day == 365 * year + y / 4 - y / 100 + y / 400 + 1) by {
        if month < 3 {
            lemma_quotients_step(year);
        } else {
            lemma_quotients_leap(year);
        }
    }
    lemma_truncated_quotients(y);
    let sum = weekday_sum(year, month, day);
    let number = day_number(year, month, day) + 5 + day_slip(year, month);
    assert(number == sum + 7 * (52 * year + weeks));
    assert((sum + 7 * (52 * year + weeks)) % 7 == sum % 7) by {
        vstd::arithmetic::div_mod::lemma_mod_multiples_vanish(52 * year + weeks, sum, 7);
    }
}

/// Rounding towards zero counts one leap day more before the year 0, except in leap years.
proof fn lemma_truncated_quotients(year: int)
    ensures
        truncated_quotient(year, 4) - truncated_quotient(year, 100) + truncated_quotient(year, 400)
            == year / 4 - year / 100 + year / 400 + (if year >= 0 || leap_year(year) {
            0int
        } else {
            1int
        }),
{
    lemma_quotients_by_four(year);
    lemma_quotients_by_hundred(year);
    lemma_quotients_by_four_hundred(year);
    lemma_multiples(year);
}

proof fn lemma_quotients_by_four(year: int)
    ensures
        -((-year) / 4) == year / 4 + (if year % 4 == 0 { 0int } else { 1int }),
        (year + 3) / 4 == year / 4 + (if year % 4 == 0 { 0int } else { 1int }),
{
}

proof fn lemma_quotients_by_hundred(year: int)
    ensures
        -((-year) / 100) == year / 100 + (if year % 100 == 0 { 0int } else { 1int }),
        (year + 99) / 100 == year / 100 + (if year % 100 == 0 { 0int } else { 1int }),
{
}

proof fn lemma_quotients_by_four_hundred(year: int)
    ensures
        -((-year) / 400) == year / 400 + (if year % 400 == 0 { 0int } else { 1int }),
        (year + 399) / 400 == year / 400 + (if year % 400 == 0 { 0int } else { 1int }),
{
}

proof fn lemma_multiples(year: int)
    ensures
        year % 100 == 0 ==> year % 4 == 0,
        year % 400 == 0 ==> year % 100 == 0,
{
    if year % 100 == 0 {
        lemma_multiple_of_multiple(year / 100, 25, 4);
    }
    if year % 400 == 0 {
        lemma_multiple_of_multiple(year / 400, 4, 100);
    }
}

proof fn lemma_multiple_of_multiple(factor: int, times: int, divisor: int)
    requires
        divisor > 0,
    ensures
        (factor * (times * divisor)) % divisor == 0,
{
    assert(factor * (times * divisor) == (factor * times) * divisor) by (nonlinear_arith);
    vstd::arithmetic::div_mod::lemma_mod_multiples_basic(factor * times, divisor);
}

proof fn lemma_quotients_step(year: int)
    ensures
        (year + 3) / 4 == (year - 1) / 4 + 1,
        (year + 99) / 100 == (year - 1) / 100 + 1,
        (year + 399) / 400 == (year - 1) / 400 + 1,
{
}

proof fn lemma_quotients_leap(year: int)
    ensures
        (year + 3) / 4 - (year + 99) / 100 + (year + 399) / 400 + (if leap_year(year) {
            1int
        } else {
            0int
        }) == year / 4 - year / 100 + year / 400 + 1,
{
    lemma_quotients_by_four(year);
    lemma_quotients_by_hundred(year);
    lemma_quotients_by_four_hundred(year);
    lemma_multiples(year);
}

proof fn lemma_days_before_month(year: int, month: int) -> (weeks: int)
    requires
        1 <= month <= 12,
    ensures
        days_before_month(year, month) == month_offset(month) + 7 * weeks - (if month < 3 {
            7int
        } else if leap_year(year) {
            5int
        } else {
            6int
        }),
{
    reveal_with_fuel(days_before_month, 12);
    let offsets = seq![0int, 3, 2, 5, 0, 3, 5, 1, 4, 6, 2, 4];
    assert(offsets.len() == 12);
    assert(month_offset(month) == offsets[month - 1]);
    let weeks = seq![1int, 5, 9, 13, 18, 22, 26, 31, 35, 39, 44, 48];
    weeks[month - 1]
}

pub proof fn lemma_days_before_year(year: int)
    ensures
        days_before_year(year) == 365 * year + (year + 3) / 4 - (year + 99) / 100 + (year + 399)
            / 400,
    decreases (if year >= 0 { year } else { -year }),
{
    if year > 0 {
        lemma_days_before_year(year - 1);
        lemma_quotients_leap(year - 1);
        lemma_quotients_step(year);
    } else if year < 0 {
        lemma_days_before_year(year + 1);
        lemma_quotients_leap(year);
        lemma_quotients_step(year + 1);
    }
}

/// `value` divided by `divisor`, rounded towards zero.
fn quotient(value: i64, divisor: i64) -> (result: i64)
    requires
        divisor > 1,
    ensures
        result == truncated_quotient(value as int, divisor as int),
        value >= 0 ==> 0 <= result <= value,
        value < 0 ==> value <= result <= 0,
{
    proof {
        if value >= 0 {
            vstd::arithmetic::div_mod::lemma_div_pos_is_pos(value as int, divisor as int);
            vstd::arithmetic::div_mod::lemma_div_nonincreasing(value as int, divisor as int);
        } else {
            vstd::arithmetic::div_mod::lemma_div_pos_is_pos(-value as int, divisor as int);
            vstd::arithmetic::div_mod::lemma_div_nonincreasing(-value as int, divisor as int);
        }
    }
    value / divisor
}

/// What is left of `days` when whole weeks are taken off.
fn remainder_of_week(days: i64) -> (rest: usize)
    ensures
        rest == days % 7,
{
    let remainder: i64 = days % 7;
    if remainder < 0 {
        (remainder + 7) as usize
    } else {
        remainder as usize
    }
}

/// The day of the week, counted from Sunday as 0. The sum is taken in 64 bits, so that every
/// year has one.
pub fn weekday_index(year: i32, month: i32, day: i32) -> (weekday: usize)
    requires
        1 <= month <= 12,
    ensures
        weekday == weekday_of(year as int, month as int, day as int),
        weekday < 7,
{
    let offsets: [i64; 12] = [0, 3, 2, 5, 0, 3, 5, 1, 4, 6, 2, 4];
    let y: i64 = if month < 3 {
        year as i64 - 1
    } else {
        year as i64
    };
    let offset: i64 = offsets[(month - 1) as usize];
    assert(0 <= offset <= 6 && offset == month_offset(month as int));
    let fourths: i64 = quotient(y, 4);
    let hundredths: i64 = quotient(y, 100);
    let four_hundredths: i64 = quotient(y, 400);
    let sum: i64 = y + fourths - hundredths + four_hundredths + offset + day as i64;
    proof {
        lemma_sum_counts_days(year as int, month as int, day as int);
    }
    remainder_of_week(sum)
}

/// The date of the following day.
pub open spec fn next_date(year: int, month: int, day: int) -> (int, int, int) {
    if day < month_length(year, month) {
        (year, month, day + 1)
    } else if month < 12 {
        (year, month + 1, 1)
    } else {
        (year + 1, 1, 1)
    }
}

/// The day that follows a date has the following day of the week, also at the end of a month, of
/// a year and of a leap February. This holds of every date from 1 March of the year 0 on, and
/// before that of every date at which the slip does not change.
pub proof fn next_date_is_next_weekday(year: int, month: int, day: int)
    requires
        valid_date(year, month, day),
        ({
            let (y, m, d) = next_date(year, month, day);
            day_slip(y, m) == day_slip(year, month)
        }),
    ensures
        ({
            let (y, m, d) = next_date(year, month, day);
            &&& valid_date(y, m, d)
            &&& weekday_of(y, m, d) == (weekday_of(year, month, day) + 1) % 7
        }),
{
    lemma_next_date_is_valid(year, month, day);
    lemma_next_day_number(year, month, day);
    lemma_next_remainder(day_number(year, month, day) + 5 + day_slip(year, month));
}

proof fn lemma_next_date_is_valid(year: int, month: int, day: int)
    requires
        valid_date(year, month, day),
    ensures
        ({
            let (y, m, d) = next_date(year, month, day);
            valid_date(y, m, d)
        }),
{
}

pub proof fn lemma_next_remainder(number: int)
    ensures
        (number + 1) % 7 == (number % 7 + 1) % 7,
{
}

/// The slip is nought, and does not change, from 1 March of the year 0 on.
pub proof fn no_slip_from_march_of_year_zero(year: int, month: int, day: int)
    requires
        valid_date(year, month, day),
        year > 0 || (year == 0 && month >= 3),
    ensures
        day_slip(year, month) == 0,
        ({
            let (y, m, d) = next_date(year, month, day);
            day_slip(y, m) == 0
        }),
{
}

pub proof fn lemma_next_day_number(year: int, month: int, day: int)
    requires
        valid_date(year, month, day),
    ensures
        ({
            let (y, m, d) = next_date(year, month, day);
            day_number(y, m, d) == day_number(year, month, day) + 1
        }),
{
    if day == month_length(year, month) && month == 12 {
        reveal_with_fuel(days_before_month, 12);
        if year >= 0 {
            assert(days_before_year(year + 1) == days_before_year(year) + year_length(year));
        } else {
            assert(days_before_year(year) == days_before_year(year + 1) - year_length(year));
        }
    }
}

/// The calendar repeats every 400 years: the same day of the same month has the same day of the
/// week. The slip must be the same, as it is from 1 March of the year 0 on.
pub proof fn weekday_repeats_after_four_centuries(year: int, month: int, day: int)
    requires
        1 <= month <= 12,
        day_slip(year + 400, month) == day_slip(year, month),
    ensures
        weekday_of(year + 400, month, day) == weekday_of(year, month, day),
{
    lemma_four_centuries(year, month, day);
    lemma_whole_weeks(day_number(year, month, day) + 5 + day_slip(year, month));
}

/// Four centuries are 20871 weeks.
pub proof fn lemma_four_centuries(year: int, month: int, day: int)
    ensures
        day_number(year + 400, month, day) == day_number(year, month, day) + 7 * 20871,
{
    lemma_days_before_year(year);
    lemma_days_before_year(year + 400);
    lemma_days_before_month_repeat(year, month);
    lemma_quotients_after_four_centuries(year);
}

proof fn lemma_quotients_after_four_centuries(year: int)
    ensures
        (year + 403) / 4 == (year + 3) / 4 + 100,
        (year + 499) / 100 == (year + 99) / 100 + 4,
        (year + 799) / 400 == (year + 399) / 400 + 1,
{
}

pub proof fn lemma_whole_weeks(number: int)
    ensures
        (number + 7 * 20871) % 7 == number % 7,
{
    vstd::arithmetic::div_mod::lemma_mod_multiples_vanish(20871, number, 7);
}

proof fn lemma_days_before_month_repeat(year: int, month: int)
    ensures
        days_before_month(year + 400, month) == days_before_month(year, month),
    decreases month,
{
    assert(leap_year(year + 400) == leap_year(year));
    if month > 1 {
        lemma_days_before_month_repeat(year, month - 1);
    }
}

/// Years mirror about the year 0 where they start in March: what a year is ahead of the year 0 on
/// the same day of the same month, its opposite is behind.
pub proof fn weekdays_mirror_about_year_zero(distance: int, month: int, day: int)
    requires
        1 <= month <= 12,
    ensures
        ({
            let zero: int = if month < 3 {
                1
            } else {
                0
            };
            (weekday_of(zero + distance, month, day) + weekday_of(zero - distance, month, day)) % 7
                == (2 * weekday_of(zero, month, day)) % 7
        }),
{
    let zero: int = if month < 3 {
        1
    } else {
        0
    };
    lemma_sum_counts_days(zero + distance, month, day);
    lemma_sum_counts_days(zero - distance, month, day);
    lemma_sum_counts_days(zero, month, day);
    let ahead = weekday_sum(zero + distance, month, day);
    let behind = weekday_sum(zero - distance, month, day);
    let middle = weekday_sum(zero, month, day);
    assert(truncated_quotient(distance, 4) == -truncated_quotient(-distance, 4));
    assert(truncated_quotient(distance, 100) == -truncated_quotient(-distance, 100));
    assert(truncated_quotient(distance, 400) == -truncated_quotient(-distance, 400));
    lemma_mirrored_remainders(ahead, behind, middle);
}

proof fn lemma_mirrored_remainders(ahead: int, behind: int, middle: int)
    requires
        ahead + behind == 2 * middle,
    ensures
        (ahead % 7 + behind % 7) % 7 == (2 * (middle % 7)) % 7,
{
}

// ---------------------------------------------------------------------------
// Reading a date
// ---------------------------------------------------------------------------

/// The failure for a text that is not a date of the calendar.
pub open spec fn date_failure(date: Seq<char>) -> Failure {
    Failure::Api("Invalid forecast date '"@ + date + "'."@)
}

/// The failure for a text of which one part is not a number.
pub open spec fn part_failure(label: Seq<char>, date: Seq<char>) -> Failure {
    Failure::Api("Invalid "@ + label + " in forecast date '"@ + date + "'."@)
}

/// The number that a part of a date stands for.
pub open spec fn part_value(part: Option<Seq<char>>, label: Seq<char>, date: Seq<char>) -> Result<
    i32,
    Failure,
> {
    match part {
        None => Err(date_failure(date)),
        Some(text) => match parsed_i32(text) {
            Some(number) => Ok(number),
            None => Err(part_failure(label, date)),
        },
    }
}

/// The part at `index`, where there is one.
pub open spec fn part_at(parts: Seq<Seq<char>>, index: int) -> Option<Seq<char>> {
    if index < parts.len() {
        Some(parts[index])
    } else {
        None
    }
}

/// The year, the month and the day of a date: three numbers with a hyphen between them, which
/// name a day of the calendar. The first part that is missing or is no number decides the failure.
pub open spec fn iso_date(date: Seq<char>) -> Result<(i32, i32, i32), Failure> {
    let parts = split(date, '-');
    match part_value(part_at(parts, 0), "year"@, date) {
        Err(failure) => Err(failure),
        Ok(year) => match part_value(part_at(parts, 1), "month"@, date) {
            Err(failure) => Err(failure),
            Ok(month) => match part_value(part_at(parts, 2), "day"@, date) {
                Err(failure) => Err(failure),
                Ok(day) => if parts.len() == 3 && valid_date(
                    year as int,
                    month as int,
                    day as int,
                ) {
                    Ok((year, month, day))
                } else {
                    Err(date_failure(date))
                },
            },
        },
    }
}

/// The error for a text that is not a date of the calendar.
pub fn invalid_forecast_date(date: &str) -> (error: WeatherError)
    ensures
        error@ == date_failure(date@),
{
    let mut message = "Invalid forecast date '".to_string();
    message.append(date);
    message.append("'.");
    WeatherError::Api(message)
}

/// Reads the number that one part of a date stands for. `label` says which part it is, and
/// `original` is the whole date, for the message.
pub fn parse_date_part(part: Option<&str>, label: &str, original: &str) -> (result: Result<
    i32,
    WeatherError,
>)
    ensures
        match result {
            Ok(number) => part_value(optional_text(part), label@, original@) == Ok::<i32, Failure>(
                number,
            ),
            Err(error) => part_value(optional_text(part), label@, original@) == Err::<i32, Failure>(
                error@,
            ),
        },
{
    match part {
        None => Err(invalid_forecast_date(original)),
        Some(value) => match parse_i32(value) {
            Some(number) => Ok(number),
            None => {
                let mut message = "Invalid ".to_string();
                message.append(label);
                message.append(" in forecast date '");
                message.append(original);
                message.append("'.");
                Err(WeatherError::Api(message))
            },
        },
    }
}

/// Accepts a year, a month and a day that name a day of the calendar. `original` is the whole
/// date, for the message.
pub fn validate_date_parts(year: i32, month: i32, day: i32, original: &str) -> (result: Result<
    (),
    WeatherError,
>)
    ensures
        result is Ok <==> valid_date(year as int, month as int, day as int),
        result matches Err(error) ==> error@ == date_failure(original@),
{
    if !(1 <= month && month <= 12) {
        return Err(invalid_forecast_date(original));
    }
    let max_day: i32 = max_day_in_month(year, month);
    if !(1 <= day && day <= max_day) {
        return Err(invalid_forecast_date(original));
    }
    Ok(())
}

fn part_of(parts: &Vec<String>, index: usize) -> (part: Option<&str>)
    ensures
        optional_text(part) == part_at(views(parts@), index as int),
{
    if index < parts.len() {
        Some(parts[index].as_str())
    } else {
        None
    }
}

/// Reads a date: year, month and day, with a hyphen between them.
pub fn parse_iso_date(date: &str) -> (result: Result<(i32, i32, i32), WeatherError>)
    ensures
        match result {
            Ok(parts) => iso_date(date@) == Ok::<(i32, i32, i32), Failure>(parts),
            Err(error) => iso_date(date@) == Err::<(i32, i32, i32), Failure>(error@),
        },
{
    let parts = split_text(date, '-');
    let year: i32 = match parse_date_part(part_of(&parts, 0), "year", date) {
        Ok(year) => year,
        Err(error) => return Err(error),
    };
    let month: i32 = match parse_date_part(part_of(&parts, 1), "month", date) {
        Ok(month) => month,
        Err(error) => return Err(error),
    };
    let day: i32 = match parse_date_part(part_of(&parts, 2), "day", date) {
        Ok(day) => day,
        Err(error) => return Err(error),
    };
    if parts.len() > 3 {
        return Err(invalid_forecast_date(date));
    }
    match validate_date_parts(year, month, day, date) {
        Ok(()) => Ok((year, month, day)),
        Err(error) => Err(error),
    }
}

/// The short English name of a day of the week, counted from Sunday as 0.
pub open spec fn weekday_name(weekday: int) -> Seq<char> {
    if weekday == 0 {
        "Sun"@
    } else if weekday == 1 {
        "Mon"@
    } else if weekday == 2 {
        "Tue"@
    } else if weekday == 3 {
        "Wed"@
    } else if weekday == 4 {
        "Thu"@
    } else if weekday == 5 {
        "Fri"@
    } else {
        "Sat"@
    }
}

/// The short English name of the day of the week of a date.
pub open spec fn date_label(date: Seq<char>) -> Result<Seq<char>, Failure> {
    match iso_date(date) {
        Ok((year, month, day)) => Ok(
            weekday_name(weekday_of(year as int, month as int, day as int)),
        ),
        Err(failure) => Err(failure),
    }
}

/// The short English name of the day of the week of a date.
pub fn weekday_label(date: &str) -> (result: Result<String, WeatherError>)
    ensures
        match result {
            Ok(label) => date_label(date@) == Ok::<Seq<char>, Failure>(label@),
            Err(error) => date_label(date@) == Err::<Seq<char>, Failure>(error@),
        },
{
    match parse_iso_date(date) {
        Ok((year, month, day)) => {
            let labels: [&str; 7] = ["Sun", "Mon", "Tue", "Wed", "Thu", "Fri", "Sat"];
            let weekday: usize = weekday_index(year, month, day);
            Ok(labels[weekday].to_string())
        },
        Err(error) => Err(error),
    }
}

/// Every day of the calendar can be read: three rows of digits with a hyphen between them, with
/// or without leading zeros, are read as the date that they name.
pub proof fn written_dates_are_read(year: Seq<char>, month: Seq<char>, day: Seq<char>)
    requires
        year.len() > 0 && all_digits(year) && digits_value(year) <= i32::MAX,
        month.len() > 0 && all_digits(month),
        day.len() > 0 && all_digits(day),
        valid_date(digits_value(year), digits_value(month), digits_value(day)),
    ensures
        iso_date(year + seq!['-'] + month + seq!['-'] + day) == Ok::<(i32, i32, i32), Failure>(
            (
                digits_value(year) as i32,
                digits_value(month) as i32,
                digits_value(day) as i32,
            ),
        ),
{
    let date = year + seq!['-'] + month + seq!['-'] + day;
    let parts = seq![year, month, day];
    lemma_digits_are_read(year);
    lemma_digits_are_read(month);
    lemma_digits_are_read(day);
    assert forall|i: int| 0 <= i < parts.len() implies !(#[trigger] parts[i]).contains('-') by {
        if parts[i].contains('-') {
            let j = choose|j: int| 0 <= j < parts[i].len() && parts[i][j] == '-';
            assert(is_digit(parts[i][j]));
        }
    }
    join_then_split(parts, '-');
    let sep = seq!['-'];
    assert(parts.drop_last() == seq![year, month]);
    assert(parts.drop_last().drop_last() == seq![year]);
    assert(join(parts.drop_last().drop_last(), sep) == year);
    assert(join(parts.drop_last(), sep) == year + sep + month);
    assert(join(parts, sep) == date);
}

proof fn lemma_digits_are_read(text: Seq<char>)
    requires
        text.len() > 0,
        all_digits(text),
        digits_value(text) <= i32::MAX,
    ensures
        digits_value(text) >= 0,
        parsed_i32(text) == Some(digits_value(text) as i32),
{
    lemma_digits_value_grows(text, 0);
    assert(is_digit(text[0]));
}

} // verus!
