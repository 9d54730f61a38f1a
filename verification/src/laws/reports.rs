//! Forecasts and reports.

use vstd::prelude::*;

use crate::calendar::date_label;
use crate::conditions::code_description;
use crate::conditions::code_emoji;
use crate::conditions::condition_of;
use crate::conditions::ConditionInfo;
use crate::decimal::decimal;
use crate::decimal::decimal_is_read_back;
use crate::decimal::parsed_i32;
use crate::error::Failure;
use crate::forecast::forecast_keeps_entries_together;
use crate::forecast::forecast_needs_readable_dates;
use crate::forecast::ApiDailyForecast;
use crate::forecast::Day;
use crate::forecast::ForecastDay;
use crate::forecast::ForecastResponse;
use crate::laws::words::joining_part_by_part;
use crate::query::Request;
use crate::report::current_temperature;
use crate::report::day_line;
use crate::report::head_lines;
use crate::report::report_lines;
use crate::report::report_of;
use crate::report::report_text;
use crate::report::temperature;
use crate::report::Current;
use crate::report::Report;
use crate::report::WeatherReport;
use crate::text::join;
use crate::units::Units;

verus! {

// ---------------------------------------------------------------------------
// Weather codes
// ---------------------------------------------------------------------------

/// Each description belongs to the codes of its group and to no others.
pub proof fn descriptions_belong_to_groups_of_codes(code: int)
    ensures
        condition_of(code).description == code_description(code),
        code_description(code) == "Clear Sky"@ <==> code == 0,
        code_description(code) == "Partly Cloudy"@ <==> 0 < code < 4,
        code_description(code) == "Fog"@ <==> code == 45 || code == 48,
        code_description(code) == "Drizzle"@ <==> 50 < code < 56,
        code_description(code) == "Freezing Drizzle"@ <==> 55 < code < 58,
        code_description(code) == "Rain"@ <==> 60 < code < 66,
        code_description(code) == "Freezing Rain"@ <==> 65 < code < 68,
        code_description(code) == "Snow"@ <==> 70 < code < 76,
        code_description(code) == "Snow Grains"@ <==> code == 77,
        code_description(code) == "Rain Showers"@ <==> 79 < code < 83,
        code_description(code) == "Snow Showers"@ <==> 84 < code < 87,
        code_description(code) == "Thunderstorm"@ <==> code == 95,
        code_description(code) == "Thunderstorm With Hail"@ <==> code == 96 || code == 99,
        code_description(code) == "Unknown Conditions"@ <==> !{
            ||| 0 <= code < 4
            ||| code == 45
            ||| code == 48
            ||| 50 < code < 58
            ||| 60 < code < 68
            ||| 70 < code < 76
            ||| code == 77
            ||| 79 < code < 83
            ||| 84 < code < 87
            ||| code == 95
            ||| code == 96
            ||| code == 99
        },
{
    reveal_strlit("Clear Sky");
    reveal_strlit("Partly Cloudy");
    reveal_strlit("Fog");
    reveal_strlit("Drizzle");
    reveal_strlit("Freezing Drizzle");
    reveal_strlit("Rain");
    reveal_strlit("Freezing Rain");
    reveal_strlit("Snow");
    reveal_strlit("Snow Grains");
    reveal_strlit("Rain Showers");
    reveal_strlit("Snow Showers");
    reveal_strlit("Thunderstorm");
    reveal_strlit("Thunderstorm With Hail");
    reveal_strlit("Unknown Conditions");
    assert("Partly Cloudy"@[0] == 'P' && "Freezing Rain"@[0] == 'F');
    assert("Rain"@[0] == 'R' && "Snow"@[0] == 'S');
    assert("Rain Showers"@[0] == 'R' && "Snow Showers"@[0] == 'S' && "Thunderstorm"@[0] == 'T');
    assert("Clear Sky"@.len() == 9 && "Partly Cloudy"@.len() == 13 && "Fog"@.len() == 3);
    assert("Drizzle"@.len() == 7 && "Freezing Drizzle"@.len() == 16 && "Rain"@.len() == 4);
    assert("Freezing Rain"@.len() == 13 && "Snow"@.len() == 4 && "Snow Grains"@.len() == 11);
    assert("Rain Showers"@.len() == 12 && "Snow Showers"@.len() == 12);
    assert("Thunderstorm"@.len() == 12 && "Thunderstorm With Hail"@.len() == 22);
    assert("Unknown Conditions"@.len() == 18);
}

/// Each picture belongs to the descriptions that it illustrates and to no others.
pub proof fn pictures_illustrate_descriptions(code: int)
    ensures
        condition_of(code).emoji == code_emoji(code),
        code_emoji(code) == "☀️"@ <==> code_description(code) == "Clear Sky"@,
        code_emoji(code) == "⛅"@ <==> code_description(code) == "Partly Cloudy"@,
        code_emoji(code) == "🌫️"@ <==> code_description(code) == "Fog"@,
        code_emoji(code) == "🌦️"@ <==> code_description(code) == "Drizzle"@ || code_description(
            code,
        ) == "Rain Showers"@,
        code_emoji(code) == "🌧️"@ <==> code_description(code) == "Freezing Drizzle"@
            || code_description(code) == "Rain"@ || code_description(code) == "Freezing Rain"@,
        code_emoji(code) == "❄️"@ <==> code_description(code) == "Snow"@ || code_description(code)
            == "Snow Grains"@,
        code_emoji(code) == "🌨️"@ <==> code_description(code) == "Snow Showers"@,
        code_emoji(code) == "⛈️"@ <==> code_description(code) == "Thunderstorm"@
            || code_description(code) == "Thunderstorm With Hail"@,
        code_emoji(code) == "🌤️"@ <==> code_description(code) == "Unknown Conditions"@,
{
    descriptions_belong_to_groups_of_codes(code);
    reveal_strlit("☀️");
    reveal_strlit("⛅");
    reveal_strlit("🌫️");
    reveal_strlit("🌦️");
    reveal_strlit("🌧️");
    reveal_strlit("❄️");
    reveal_strlit("🌨️");
    reveal_strlit("⛈️");
    reveal_strlit("🌤️");
    assert("☀️"@[0] == '☀' && "⛅"@[0] == '⛅' && "🌫️"@[0] == '🌫');
    assert("🌦️"@[0] == '🌦' && "🌧️"@[0] == '🌧' && "❄️"@[0] == '❄');
    assert("🌨️"@[0] == '🌨' && "⛈️"@[0] == '⛈' && "🌤️"@[0] == '🌤');
}

// ---------------------------------------------------------------------------
// Forecasts
// ---------------------------------------------------------------------------

/// Whether each of the four lists has an entry at `index`.
pub open spec fn complete(daily: ApiDailyForecast, index: int) -> bool {
    &&& 0 <= index < daily.time@.len()
    &&& index < daily.weather_code@.len()
    &&& index < daily.temperature_2m_max@.len()
    &&& index < daily.temperature_2m_min@.len()
}

/// The entries that count are those that every list has: exactly so many as the shortest list is
/// long. Lengths are called mismatched exactly where not all of them are the expected one.
pub proof fn entries_are_counted_by_the_shortest_list(
    daily: ApiDailyForecast,
    index: int,
    expected: int,
)
    requires
        index >= 0,
    ensures
        daily.entry_count() >= 0,
        index < daily.entry_count() <==> complete(daily, index),
        !daily.mismatched(expected) <==> daily.time@.len() == expected
            && daily.weather_code@.len() == expected && daily.temperature_2m_max@.len() == expected
            && daily.temperature_2m_min@.len() == expected,
{
}

/// A forecast has three days where each list has at least three entries, and else so many as the
/// shortest list has entries.
pub proof fn forecast_has_up_to_three_days(daily: ApiDailyForecast)
    requires
        daily.forecast() is Ok,
    ensures
        ({
            let n = daily.forecast()->Ok_0.len();
            let times = daily.time@.len();
            let codes = daily.weather_code@.len();
            let highs = daily.temperature_2m_max@.len();
            let lows = daily.temperature_2m_min@.len();
            &&& 1 <= n <= 3
            &&& times >= 3 && codes >= 3 && highs >= 3 && lows >= 3 ==> n == 3
            &&& n <= times && n <= codes && n <= highs && n <= lows
            &&& n == 3 || n == times || n == codes || n == highs || n == lows
        }),
{
    forecast_keeps_entries_together(daily);
}

/// The days of a forecast are the first entries, in order: each has the label of its date, and
/// the high, the low and the code that stand at the same index.
pub proof fn forecast_days_are_the_first_entries(daily: ApiDailyForecast, index: int)
    requires
        daily.forecast() is Ok,
        0 <= index < 3,
        complete(daily, index),
    ensures
        ({
            let days = daily.forecast()->Ok_0;
            &&& index < days.len()
            &&& date_label(daily.time@[index]@) == Ok::<Seq<char>, Failure>(days[index].label)
            &&& days[index].high == daily.temperature_2m_max@[index]
            &&& days[index].low == daily.temperature_2m_min@[index]
            &&& days[index].weather_code == daily.weather_code@[index]
        }),
{
    forecast_keeps_entries_together(daily);
    assert(daily.forecast()->Ok_0[index] == daily.forecast()->Ok_0[index]);
}

/// There is a forecast exactly where there is a complete entry and the dates of the first three
/// complete entries can be read. Without a complete entry the failure says so.
pub proof fn forecast_is_given_where_dates_are_readable(daily: ApiDailyForecast)
    ensures
        daily.forecast() is Ok <==> complete(daily, 0) && forall|i: int|
            #![trigger daily.time@[i]]
            0 <= i < 3 && complete(daily, i) ==> date_label(daily.time@[i]@) is Ok,
        !complete(daily, 0) ==> daily.forecast() == Err::<Seq<Day>, Failure>(
            Failure::Api("Weather forecast was missing daily data."@),
        ),
{
    forecast_needs_readable_dates(daily);
    assert forall|i: int| 0 <= i < daily.reported_days() <==> 0 <= i < 3 && #[trigger] complete(
        daily,
        i,
    ) by {}
    if daily.forecast() is Ok {
        assert forall|i: int|
            #![trigger daily.time@[i]]
            0 <= i < 3 && complete(daily, i) implies date_label(daily.time@[i]@) is Ok by {}
    } else if complete(daily, 0) && forall|i: int|
        #![trigger daily.time@[i]]
        0 <= i < 3 && complete(daily, i) ==> date_label(daily.time@[i]@) is Ok {
        assert forall|i: int| 0 <= i < daily.reported_days() implies date_label(
            #[trigger] daily.time@[i]@,
        ) is Ok by {
            assert(complete(daily, i));
        }
    }
}

/// The first date that cannot be read decides the failure.
pub proof fn the_first_unreadable_date_decides(
    daily: ApiDailyForecast,
    index: int,
    failure: Failure,
)
    requires
        0 <= index < 3,
        complete(daily, index),
        forall|i: int| 0 <= i < index ==> date_label(#[trigger] daily.time@[i]@) is Ok,
        date_label(daily.time@[index]@) == Err::<Seq<char>, Failure>(failure),
    ensures
        daily.forecast() == Err::<Seq<Day>, Failure>(failure),
{
    reveal_with_fuel(ApiDailyForecast::first_days, 4);
    if index > 0 {
        assert(date_label(daily.time@[0]@) is Ok);
    }
    if index > 1 {
        assert(date_label(daily.time@[1]@) is Ok);
    }
    let n = daily.reported_days();
    assert(index < n <= 3);
}

/// There is a warning exactly where not all lists have the same length. It gives the number of
/// entries that count, and the lengths of the four lists by their names.
pub proof fn warning_tells_the_lengths(daily: ApiDailyForecast) -> (total: int)
    ensures
        total >= 0,
        total > 0 ==> complete(daily, total - 1),
        !complete(daily, total),
        daily.length_warning() is None <==> daily.time@.len() == daily.weather_code@.len()
            == daily.temperature_2m_max@.len() == daily.temperature_2m_min@.len(),
        daily.length_warning() matches Some(message) ==> message
            == "Forecast arrays had mismatched lengths; truncating to "@ + decimal(total)
            + " entries (time="@ + decimal(daily.time@.len() as int) + ", weather_code="@ + decimal(
            daily.weather_code@.len() as int,
        ) + ", temperature_2m_max="@ + decimal(daily.temperature_2m_max@.len() as int)
            + ", temperature_2m_min="@ + decimal(daily.temperature_2m_min@.len() as int) + ")."@,
{
    daily.entry_count()
}

// ---------------------------------------------------------------------------
// Reports
// ---------------------------------------------------------------------------

/// A report is about the place and in the units of the request, and holds what the forecast
/// service said: of the moment each value in its own field, and of the coming days the forecast.
/// It fails exactly as the forecast does.
pub proof fn report_holds_what_was_asked_and_said(request: Request, response: ForecastResponse)
    ensures
        report_of(request, response) is Ok <==> response.daily.forecast() is Ok,
        report_of(request, response) matches Err(failure) ==> response.daily.forecast() == Err::<
            Seq<Day>,
            Failure,
        >(failure),
        report_of(request, response) matches Ok(report) ==> {
            &&& report.location == request.location
            &&& report.units == request.units
            &&& report.current.temperature == response.current.temperature_2m
            &&& report.current.temperature_other_units
                == response.current.temperature_2m_other_units
            &&& report.current.humidity == response.current.relative_humidity_2m
            &&& report.current.wind_speed == response.current.wind_speed_10m@
            &&& report.current.weather_code == response.current.weather_code
            &&& response.daily.forecast() == Ok::<Seq<Day>, Failure>(report.forecast)
        },
{
}

/// What is written behind a temperature.
pub open spec fn sign(units: Units) -> Seq<char> {
    match units {
        Units::Celsius => "°C"@,
        Units::Fahrenheit => "°F"@,
    }
}

/// A temperature is shown as a number that reads as its value, negative or not, and the symbol of
/// its units.
pub proof fn temperatures_are_shown_in_full(value: i32, units: Units) -> (number: Seq<char>)
    ensures
        parsed_i32(number) == Some(value),
        temperature(value as int, units) == number + sign(units),
{
    decimal_is_read_back(value);
    decimal(value as int)
}

/// The temperature of the moment is shown twice: in the units of the report, and in brackets in
/// the other units, each with its own symbol.
pub proof fn current_temperature_is_shown_in_both_units(value: i32, other: i32, units: Units) -> (
numbers: (Seq<char>, Seq<char>))
    ensures
        parsed_i32(numbers.0) == Some(value),
        parsed_i32(numbers.1) == Some(other),
        current_temperature(value as int, other as int, units) == (if units == Units::Celsius {
            numbers.0 + "°C ("@ + numbers.1 + "°F)"@
        } else {
            numbers.0 + "°F ("@ + numbers.1 + "°C)"@
        }),
{
    let one = temperatures_are_shown_in_full(value, units);
    let two = temperatures_are_shown_in_full(other, units.opposite());
    reveal_strlit("°C");
    reveal_strlit("°F");
    reveal_strlit(" (");
    reveal_strlit(")");
    reveal_strlit("°C (");
    reveal_strlit("°F (");
    reveal_strlit("°C)");
    reveal_strlit("°F)");
    let shown = current_temperature(value as int, other as int, units);
    assert(shown == one + sign(units) + " ("@ + (two + sign(units.opposite())) + ")"@);
    if units == Units::Celsius {
        assert(shown == one + "°C ("@ + two + "°F)"@);
    } else {
        assert(shown == one + "°F ("@ + two + "°C)"@);
    }
    (one, two)
}

/// The line of a day gives its label, its picture, its high and its low in full, and its
/// description: the numbers read as the high and the low of the day, also where they are negative.
pub proof fn day_line_shows_the_day(day: Day, units: Units) -> (numbers: (Seq<char>, Seq<char>))
    requires
        i32::MIN <= day.high <= i32::MAX,
        i32::MIN <= day.low <= i32::MAX,
    ensures
        parsed_i32(numbers.0) == Some(day.high as i32),
        parsed_i32(numbers.1) == Some(day.low as i32),
        day_line(day, units) == "  "@ + day.label + ": "@ + code_emoji(day.weather_code) + " "@
            + numbers.0 + sign(units) + " / "@ + numbers.1 + sign(units) + " — "@
            + code_description(day.weather_code),
{
    let high = temperatures_are_shown_in_full(day.high as i32, units);
    let low = temperatures_are_shown_in_full(day.low as i32, units);
    assert(temperature(day.high, units) == high + sign(units));
    assert(temperature(day.low, units) == low + sign(units));
    let head = "  "@ + day.label + ": "@ + code_emoji(day.weather_code) + " "@;
    let one = high + sign(units);
    let two = low + sign(units);
    assert(head + one == head + high + sign(units));
    assert(head + one + " / "@ + two == head + high + sign(units) + " / "@ + low + sign(units));
    (high, low)
}

/// The text of a report starts with the place, the temperature, the description of the weather,
/// the humidity and the wind, each in its own place, and with the heading of the days.
pub proof fn report_starts_with_the_weather_of_the_moment(report: Report) -> (numbers: (
    Seq<char>,
    Seq<char>,
))
    requires
        report.forecast.len() == 0,
        i32::MIN <= report.current.temperature <= i32::MAX,
        i32::MIN <= report.current.temperature_other_units <= i32::MAX,
    ensures
        parsed_i32(numbers.0) == Some(report.current.temperature as i32),
        parsed_i32(numbers.1) == Some(report.current.temperature_other_units as i32),
        ({
            let both = if report.units == Units::Celsius {
                numbers.0 + "°C ("@ + numbers.1 + "°F)"@
            } else {
                numbers.0 + "°F ("@ + numbers.1 + "°C)"@
            };
            let wind_unit = if report.units == Units::Celsius {
                "km/h"@
            } else {
                "mph"@
            };
            report_text(report) == "🌤️ Weather for "@ + report.location + "\n\nCurrent: "@
                + both + ", "@ + code_description(report.current.weather_code) + "\nHumidity: "@
                + decimal(report.current.humidity) + "% | Wind: "@ + report.current.wind_speed
                + " "@ + wind_unit + "\n\n📅 3-Day Forecast:"@
        }),
{
    let numbers = current_temperature_is_shown_in_both_units(
        report.current.temperature as i32,
        report.current.temperature_other_units as i32,
        report.units,
    );
    let both = current_temperature(
        report.current.temperature,
        report.current.temperature_other_units,
        report.units,
    );
    let description = code_description(report.current.weather_code);
    let humidity = decimal(report.current.humidity);
    let wind = report.current.wind_speed;
    let wind_unit = report.units.wind_unit_text();
    let feed = "\n"@;
    let lines = report_lines(report);
    let title = "🌤️ Weather for "@ + report.location;
    let current = "Current: "@ + both + ", "@ + description;
    let air = "Humidity: "@ + humidity + "% | Wind: "@ + wind + " "@ + wind_unit;
    let heading = "📅 3-Day Forecast:"@;
    assert(lines == seq![title, seq![], current, air, seq![], heading]);
    lemma_six_lines(title, current, air, heading, feed);
    lemma_headings();
    let upper = title + "\n\nCurrent: "@ + both + ", "@ + description;
    lemma_regroup(title, feed + feed, "Current: "@, both, ", "@, description);
    let middle = upper + "\nHumidity: "@ + humidity + "% | Wind: "@ + wind + " "@ + wind_unit;
    lemma_regroup(upper, feed, "Humidity: "@, humidity, "% | Wind: "@, wind);
    lemma_regroup_two(upper + feed, "Humidity: "@ + humidity + "% | Wind: "@ + wind, " "@, wind_unit);
    lemma_group(middle, feed + feed, heading);
    numbers
}

proof fn lemma_headings()
    ensures
        "\n\nCurrent: "@ == "\n"@ + "\n"@ + "Current: "@,
        "\nHumidity: "@ == "\n"@ + "Humidity: "@,
        "\n\n📅 3-Day Forecast:"@ == "\n"@ + "\n"@ + "📅 3-Day Forecast:"@,
{
    reveal_strlit("\n");
    reveal_strlit("Current: ");
    reveal_strlit("\n\nCurrent: ");
    reveal_strlit("Humidity: ");
    reveal_strlit("\nHumidity: ");
    reveal_strlit("📅 3-Day Forecast:");
    reveal_strlit("\n\n📅 3-Day Forecast:");
}

proof fn lemma_six_lines(
    title: Seq<char>,
    current: Seq<char>,
    air: Seq<char>,
    heading: Seq<char>,
    feed: Seq<char>,
)
    ensures
        join(seq![title, seq![], current, air, seq![], heading], feed) == title + (feed + feed)
            + current + feed + air + (feed + feed) + heading,
{
    let none = Seq::<char>::empty();
    let five = seq![title, none, current, air, none];
    let four = seq![title, none, current, air];
    let three = seq![title, none, current];
    let two = seq![title, none];
    let one = seq![title];
    joining_part_by_part(one, title, feed);
    joining_part_by_part(one, none, feed);
    joining_part_by_part(two, current, feed);
    joining_part_by_part(three, air, feed);
    joining_part_by_part(four, none, feed);
    joining_part_by_part(five, heading, feed);
    assert(two == one.push(none));
    assert(three == two.push(current));
    assert(four == three.push(air));
    assert(five == four.push(none));
    assert(seq![title, none, current, air, none, heading] == five.push(heading));
    assert(title + feed + none + feed == title + (feed + feed));
    let upper = title + (feed + feed) + current + feed + air;
    assert(upper + feed + none + feed == upper + (feed + feed));
}

proof fn lemma_group(a: Seq<char>, b: Seq<char>, c: Seq<char>)
    ensures
        a + b + c == a + (b + c),
{
    assert(a + b + c =~= a + (b + c));
}

proof fn lemma_regroup_two(before: Seq<char>, a: Seq<char>, b: Seq<char>, c: Seq<char>)
    ensures
        before + (a + b + c) == before + a + b + c,
{
    assert(before + (a + b + c) =~= before + a + b + c);
}

proof fn lemma_regroup(
    before: Seq<char>,
    feed: Seq<char>,
    head: Seq<char>,
    a: Seq<char>,
    b: Seq<char>,
    c: Seq<char>,
)
    ensures
        before + feed + (head + a + b + c) == before + (feed + head) + a + b + c,
{
    lemma_regroup_two(before + feed, head + a, b, c);
    lemma_group(before + feed, head, a);
    lemma_group(before, feed, head);
}

/// One day more adds one line to the text of a report: that of the day, in the units of the
/// report.
pub proof fn each_day_adds_its_line(report: Report, day: Day)
    ensures
        report_text(Report { forecast: report.forecast.push(day), ..report }) == report_text(report)
            + "\n"@ + day_line(day, report.units),
{
    let longer = Report { forecast: report.forecast.push(day), ..report };
    let lines = report_lines(report);
    assert(head_lines(longer) == head_lines(report));
    assert(report_lines(longer) == lines.push(day_line(day, report.units)));
    assert(report_lines(longer).drop_last() == lines);
}

/// A model holds the values and the texts of the fields.
pub proof fn models_hold_the_fields(
    report: WeatherReport,
    day: ForecastDay,
    info: ConditionInfo,
    index: int,
)
    ensures
        info@.emoji == info.emoji@ && info@.description == info.description@,
        report@.location == report.location@ && report@.units == report.units,
        report@.current.temperature == report.current.temperature,
        report@.current.temperature_other_units == report.current.temperature_other_units,
        report@.current.humidity == report.current.humidity,
        report@.current.wind_speed == report.current.wind_speed@,
        report@.current.weather_code == report.current.weather_code,
        report@.forecast.len() == report.forecast@.len(),
        0 <= index < report.forecast@.len() ==> report@.forecast[index]
            == report.forecast@[index]@,
        day@.label == day.label@ && day@.high == day.high && day@.low == day.low,
        day@.weather_code == day.weather_code,
{
}

} // verus!
