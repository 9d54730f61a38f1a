//! Dates and days of the week.

use vstd::prelude::*;

use crate::calendar::date_failure;
use crate::calendar::date_label;
use crate::calendar::day_number;
use crate::calendar::day_slip;
use crate::calendar::days_before_month;
use crate::calendar::iso_date;
use crate::calendar::leap_year;
use crate::calendar::lemma_days_before_year;
use crate::calendar::lemma_four_centuries;
use crate::calendar::lemma_next_day_number;
use crate::calendar::lemma_next_remainder;
use crate::calendar::lemma_whole_weeks;
use crate::calendar::month_length;
use crate::calendar::next_date;
use crate::calendar::part_value;
use crate::calendar::valid_date;
use crate::calendar::weekday_of;
use crate::calendar::written_dates_are_read;
use crate::decimal::all_digits;
use crate::decimal::digits_value;
use crate::decimal::lemma_digits_value_grows;
use crate::decimal::parsed_i32;
use crate::decimal::unsigned_part;
use crate::error::Failure;
use crate::laws::words::splitting_off_the_first_part;
use crate::text::split;
use crate::text::split_then_join;

verus! {

// ---------------------------------------------------------------------------
// The calendar
// ---------------------------------------------------------------------------

/// The last day of a month. From January to July the odd months are long, from August on the even
/// ones; February has 28 days, and 29 in every fourth year, but of the years that end a century
/// only in every fourth.
pub open spec fn last_day(year: int, month: int) -> int {
    if month == 2 {
        let turn = if year % 100 == 0 {
            year / 100
        } else {
            year
        };
        if turn % 4 == 0 {
            29
        } else {
            28
        }
    } else {
        30 + (month + month / 8) % 2
    }
}

/// The date of the following day.
pub open spec fn following_date(year: int, month: int, day: int) -> (int, int, int) {
    if day != last_day(year, month) {
        (year, month, day + 1)
    } else if month != 12 {
        (year, month + 1, 1)
    } else {
        (year + 1, 1, 1)
    }
}

/// A year has a 29 February where it is a fourth year, unless it ends a century that is not a
/// fourth one.
pub proof fn leap_years_come_every_fourth_year(year: int)
    ensures
        year % 100 != 0 ==> (leap_year(year) <==> year % 4 == 0),
        year % 100 == 0 ==> (leap_year(year) <==> (year / 100) % 4 == 0),
        leap_year(year) <==> last_day(year, 2) == 29,
{
    if year % 100 == 0 {
        assert(year == 100 * (year / 100));
    }
}

/// Months have the lengths of the calendar, other numbers name no month, and a date is one of the
/// calendar exactly where its day is one of the days of its month.
pub proof fn dates_are_those_of_the_calendar(year: int, month: int, day: int)
    ensures
        1 <= month <= 12 ==> month_length(year, month) == last_day(year, month),
        !(1 <= month <= 12) ==> month_length(year, month) == 0,
        valid_date(year, month, day) <==> 1 <= month <= 12 && 1 <= day <= last_day(year, month),
{
    leap_years_come_every_fourth_year(year);
}

// ---------------------------------------------------------------------------
// The day of the week
// ---------------------------------------------------------------------------

/// The names of the days of the week, from Sunday on.
pub open spec fn week() -> Seq<Seq<char>> {
    seq!["Sun"@, "Mon"@, "Tue"@, "Wed"@, "Thu"@, "Fri"@, "Sat"@]
}

/// One day later it is the next day of the week, and 1 January 2000 is a Saturday.
pub proof fn days_follow_each_other(year: int, month: int, day: int)
    ensures
        0 <= weekday_of(year, month, day) < 7,
        weekday_of(year, month, day + 1) == (weekday_of(year, month, day) + 1) % 7,
        weekday_of(2000, 1, 1) == 6,
{
    lemma_next_remainder(day_number(year, month, day) + 5 + day_slip(year, month));
    lemma_days_before_year(2000);
    assert(days_before_month(2000, 1) == 0);
}

/// A month goes on where the one before it ends, and a year where the one before it ends. From the
/// year 1 on this holds of every month, and before that of every month but March.
pub proof fn months_follow_each_other(year: int, month: int, day: int)
    requires
        1 <= month < 12,
        year > 0 || month != 2,
    ensures
        weekday_of(year, month + 1, day) == weekday_of(year, month, day + last_day(year, month)),
        weekday_of(year + 1, 1, day) == weekday_of(year, 12, day + last_day(year, 12)),
{
    leap_years_come_every_fourth_year(year);
    assert(days_before_month(year, month + 1) == days_before_month(year, month) + month_length(
        year,
        month,
    ));
    lemma_next_day_number(year, 12, 31);
    assert(day_number(year + 1, 1, 1) == day_number(year, 12, 32));
}

proof fn lemma_year_is_not_negative(date: Seq<char>)
    requires
        iso_date(date) is Ok,
    ensures
        iso_date(date)->Ok_0.0 >= 0,
{
    split_then_join(date, '-');
    let first = split(date, '-')[0];
    assert(!first.contains('-'));
    if first[0] == '-' {
        assert(first.contains(first[0]));
    }
    lemma_digits_value_grows(unsigned_part(first), 0);
}

/// A date that can be read is labelled with the name of a day of the week, one that cannot be read
/// with the failure to read it, and two texts that name the same date have the same label.
pub proof fn labels_belong_to_dates(one: Seq<char>, other: Seq<char>)
    ensures
        iso_date(one) is Ok ==> date_label(one) is Ok && week().contains(date_label(one)->Ok_0),
        iso_date(one) matches Err(failure) ==> date_label(one) == Err::<Seq<char>, Failure>(
            failure,
        ),
        iso_date(one) is Ok && iso_date(one) == iso_date(other) ==> date_label(one) == date_label(
            other,
        ),
{
    if iso_date(one) is Ok {
        let weekday = lemma_label(one);
        assert(week()[weekday] == date_label(one)->Ok_0);
    }
}

proof fn lemma_label(date: Seq<char>) -> (weekday: int)
    requires
        iso_date(date) is Ok,
    ensures
        ({
            let (year, month, day) = iso_date(date)->Ok_0;
            &&& 0 <= weekday < 7
            &&& weekday == weekday_of(year as int, month as int, day as int)
            &&& date_label(date) == Ok::<Seq<char>, Failure>(week()[weekday])
        }),
{
    let (year, month, day) = iso_date(date)->Ok_0;
    weekday_of(year as int, month as int, day as int)
}

/// Where two texts name a date and the date that follows it, the label of the second is the name
/// that follows the label of the first in the week. The one exception is 29 February of the year 0.
pub proof fn following_dates_have_following_labels(one: Seq<char>, other: Seq<char>) -> (k: int)
    requires
        iso_date(one) is Ok,
        iso_date(other) is Ok,
        ({
            let (year, month, day) = iso_date(one)->Ok_0;
            let (y, m, d) = iso_date(other)->Ok_0;
            &&& (y as int, m as int, d as int) == following_date(
                year as int,
                month as int,
                day as int,
            )
            &&& !(year == 0 && month == 2 && day == 29)
        }),
    ensures
        0 <= k < 7,
        date_label(one) == Ok::<Seq<char>, Failure>(week()[k]),
        date_label(other) == Ok::<Seq<char>, Failure>(week()[(k + 1) % 7]),
{
    let (year, month, day) = iso_date(one)->Ok_0;
    let k = lemma_label(one);
    let next = lemma_label(other);
    lemma_year_is_not_negative(one);
    dates_are_those_of_the_calendar(year as int, month as int, day as int);
    let (y, m, d) = next_date(year as int, month as int, day as int);
    assert((y, m, d) == following_date(year as int, month as int, day as int));
    lemma_next_day_number(year as int, month as int, day as int);
    assert(day_slip(y, m) == day_slip(year as int, month as int));
    lemma_next_remainder(
        day_number(year as int, month as int, day as int) + 5 + day_slip(year as int, month as int),
    );
    k
}

/// Dates that lie 400 years apart have the same label, from 1 March of the year 0 on. In the two
/// months before that date the label is the one that follows.
pub proof fn labels_repeat_after_four_centuries(one: Seq<char>, other: Seq<char>) -> (k: int)
    requires
        iso_date(one) is Ok,
        iso_date(other) is Ok,
        ({
            let (year, month, day) = iso_date(one)->Ok_0;
            let (y, m, d) = iso_date(other)->Ok_0;
            y == year + 400 && m == month && d == day
        }),
    ensures
        0 <= k < 7,
        date_label(other) == Ok::<Seq<char>, Failure>(week()[k]),
        ({
            let (year, month, day) = iso_date(one)->Ok_0;
            date_label(one) == Ok::<Seq<char>, Failure>(
                week()[if year == 0 && month < 3 {
                    (k + 1) % 7
                } else {
                    k
                }],
            )
        }),
{
    let (year, month, day) = iso_date(one)->Ok_0;
    let (y, m, d) = (year as int, month as int, day as int);
    lemma_year_is_not_negative(one);
    let first = lemma_label(one);
    let k = lemma_label(other);
    lemma_four_centuries(y, m, d);
    lemma_whole_weeks(day_number(y, m, d) + 5);
    assert(day_slip(y + 400, m) == 0);
    lemma_next_remainder(day_number(y, m, d) + 5);
    k
}

/// Every text that names 1 January 2000 is labelled as a Saturday; `2000-01-01` is one.
pub proof fn the_year_2000_starts_on_a_saturday(date: Seq<char>)
    ensures
        iso_date(date) == Ok::<(i32, i32, i32), Failure>((2000, 1, 1)) ==> date_label(date) == Ok::<
            Seq<char>,
            Failure,
        >("Sat"@),
        date_label("2000-01-01"@) == Ok::<Seq<char>, Failure>("Sat"@),
{
    days_follow_each_other(2000, 1, 1);
    reveal_strlit("2000-01-01");
    let year = seq!['2', '0', '0', '0'];
    let month = seq!['0', '1'];
    assert("2000-01-01"@ == year + seq!['-'] + month + seq!['-'] + month);
    reveal_with_fuel(digits_value, 5);
    assert(year.drop_last() == seq!['2', '0', '0']);
    assert(year.drop_last().drop_last() == seq!['2', '0']);
    assert(year.drop_last().drop_last().drop_last() == seq!['2']);
    assert(year.drop_last().drop_last().drop_last().drop_last() == Seq::<char>::empty());
    assert(month.drop_last() == seq!['0']);
    assert(month.drop_last().drop_last() == Seq::<char>::empty());
    assert(digits_value(month) == 1);
    assert(digits_value(year) == 2000);
    assert(all_digits(year) && all_digits(month));
    written_dates_are_read(year, month, month);
}

// ---------------------------------------------------------------------------
// Reading a date
// ---------------------------------------------------------------------------

/// The failure for the part of a date that is no number, or for the date as a whole.
pub open spec fn refused(message: Seq<char>, date: Seq<char>) -> Result<(i32, i32, i32), Failure> {
    Err(Failure::Api(message + date + "'."@))
}

/// A part of a date stands for the number that it reads as. One that is no number is refused under
/// its name, and where a part is missing the date is refused.
pub proof fn parts_stand_for_their_numbers(part: Seq<char>, label: Seq<char>, date: Seq<char>)
    ensures
        part_value(None, label, date) == Err::<i32, Failure>(
            Failure::Api("Invalid forecast date '"@ + date + "'."@),
        ),
        match parsed_i32(part) {
            Some(number) => part_value(Some(part), label, date) == Ok::<i32, Failure>(number),
            None => part_value(Some(part), label, date) == Err::<i32, Failure>(
                Failure::Api("Invalid "@ + label + " in forecast date '"@ + date + "'."@),
            ),
        },
        date_failure(date) == Failure::Api("Invalid forecast date '"@ + date + "'."@),
{
}

proof fn lemma_messages()
    ensures
        "Invalid "@ + "year"@ + " in forecast date '"@ == "Invalid year in forecast date '"@,
        "Invalid "@ + "month"@ + " in forecast date '"@ == "Invalid month in forecast date '"@,
        "Invalid "@ + "day"@ + " in forecast date '"@ == "Invalid day in forecast date '"@,
{
    reveal_strlit("Invalid ");
    reveal_strlit("year");
    reveal_strlit("month");
    reveal_strlit("day");
    reveal_strlit(" in forecast date '");
    reveal_strlit("Invalid year in forecast date '");
    reveal_strlit("Invalid month in forecast date '");
    reveal_strlit("Invalid day in forecast date '");
}

/// What stands before the first hyphen is the year. Where it is no number, the year is refused,
/// whatever follows. A year alone is no date.
pub proof fn the_year_is_read_first(year: Seq<char>, rest: Seq<char>)
    requires
        !year.contains('-'),
    ensures
        parsed_i32(year) is None ==> {
            &&& iso_date(year) == refused("Invalid year in forecast date '"@, year)
            &&& iso_date(year + seq!['-'] + rest) == refused(
                "Invalid year in forecast date '"@,
                year + seq!['-'] + rest,
            )
        },
        parsed_i32(year) is Some ==> iso_date(year) == refused("Invalid forecast date '"@, year),
{
    lemma_messages();
    splitting_off_the_first_part(year, rest, '-');
}

/// What stands between the first and the second hyphen is the month. Where the year is a number
/// and the month is none, the month is refused. A year and a month are no date.
pub proof fn the_month_is_read_second(year: Seq<char>, month: Seq<char>, rest: Seq<char>)
    requires
        !year.contains('-'),
        !month.contains('-'),
        parsed_i32(year) is Some,
    ensures
        parsed_i32(month) is None ==> {
            &&& iso_date(year + seq!['-'] + month) == refused(
                "Invalid month in forecast date '"@,
                year + seq!['-'] + month,
            )
            &&& iso_date(year + seq!['-'] + month + seq!['-'] + rest) == refused(
                "Invalid month in forecast date '"@,
                year + seq!['-'] + month + seq!['-'] + rest,
            )
        },
        parsed_i32(month) is Some ==> iso_date(year + seq!['-'] + month) == refused(
            "Invalid forecast date '"@,
            year + seq!['-'] + month,
        ),
{
    lemma_messages();
    splitting_off_the_first_part(month, rest, '-');
    splitting_off_the_first_part(year, month, '-');
    let tail = month + seq!['-'] + rest;
    splitting_off_the_first_part(year, tail, '-');
    assert(year + seq!['-'] + month + seq!['-'] + rest == year + seq!['-'] + tail);
}

/// What stands behind the second hyphen is the day. Where the year and the month are numbers and
/// the day is none, the day is refused. Three numbers are a date exactly where the calendar has
/// that day, and are read as these numbers; with anything behind a third hyphen they are no date.
pub proof fn the_day_is_read_third(
    year: Seq<char>,
    month: Seq<char>,
    day: Seq<char>,
    rest: Seq<char>,
)
    requires
        !year.contains('-'),
        !month.contains('-'),
        !day.contains('-'),
        parsed_i32(year) is Some,
        parsed_i32(month) is Some,
    ensures
        ({
            let date = year + seq!['-'] + month + seq!['-'] + day;
            let longer = date + seq!['-'] + rest;
            &&& parsed_i32(day) is None ==> {
                &&& iso_date(date) == refused("Invalid day in forecast date '"@, date)
                &&& iso_date(longer) == refused("Invalid day in forecast date '"@, longer)
            }
            &&& parsed_i32(day) is Some ==> {
                let y = parsed_i32(year)->Some_0;
                let m = parsed_i32(month)->Some_0;
                let d = parsed_i32(day)->Some_0;
                &&& iso_date(longer) == refused("Invalid forecast date '"@, longer)
                &&& iso_date(date) == (if 1 <= m <= 12 && 1 <= d <= last_day(y as int, m as int) {
                    Ok((y, m, d))
                } else {
                    refused("Invalid forecast date '"@, date)
                })
            }
        }),
{
    lemma_messages();
    let date = year + seq!['-'] + month + seq!['-'] + day;
    let longer = date + seq!['-'] + rest;
    let days = day + seq!['-'] + rest;
    splitting_off_the_first_part(day, rest, '-');
    splitting_off_the_first_part(month, day, '-');
    splitting_off_the_first_part(month, days, '-');
    splitting_off_the_first_part(year, month + seq!['-'] + day, '-');
    splitting_off_the_first_part(year, month + seq!['-'] + days, '-');
    assert(date == year + seq!['-'] + (month + seq!['-'] + day));
    assert(longer == year + seq!['-'] + (month + seq!['-'] + days));
    let parts = split(date, '-');
    assert(parts.len() == 3 && parts[0] == year && parts[1] == month && parts[2] == day);
    split_then_join(rest, '-');
    let more = split(longer, '-');
    assert(more.len() > 3 && more[0] == year && more[1] == month && more[2] == day);
    if parsed_i32(day) is Some {
        dates_are_those_of_the_calendar(
            parsed_i32(year)->Some_0 as int,
            parsed_i32(month)->Some_0 as int,
            parsed_i32(day)->Some_0 as int,
        );
    }
}

} // verus!
