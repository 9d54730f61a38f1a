//! The weather report, and the text in which it is shown.

use vstd::prelude::*;
use vstd::string::*;

use crate::calendar::date_label;
use crate::calendar::weekday_name;
use crate::conditions::code_description;
use crate::conditions::code_emoji;
use crate::conditions::weather_condition;
use crate::decimal::decimal;
use crate::decimal::digit;
use crate::decimal::digits;
use crate::decimal::signed_text;
use crate::decimal::unsigned_text;
use crate::error::Failure;
use crate::error::WeatherError;
use crate::forecast::build_forecast;
use crate::forecast::day_views;
use crate::forecast::forecast_keeps_entries_together;
use crate::forecast::Day;
use crate::forecast::ForecastDay;
use crate::forecast::ForecastResponse;
use crate::forecast::FORECAST_DAYS;
use crate::query::Request;
use crate::query::RequestOptions;
use crate::text::join;
use crate::text::join_texts;
use crate::text::join_then_split;
use crate::text::split;
use crate::text::views;
use crate::units::Units;

verus! {

/// The weather of a place: of the moment, and of the coming days.
#[derive(Debug, Clone, PartialEq, Eq)]
pub struct WeatherReport {
    pub location: String,
    pub units: Units,
    pub current: CurrentConditions,
    pub forecast: Vec<ForecastDay>,
}

/// The weather of the moment: the temperature in whole degrees, in the units of the report and
/// in the other units, and the wind speed as the text of its rounded value.
#[derive(Debug, Clone, PartialEq, Eq)]
pub struct CurrentConditions {
    pub temperature: i32,
    pub temperature_other_units: i32,
    pub humidity: u32,
    pub wind_speed: String,
    pub weather_code: u32,
}

/// The model of [`WeatherReport`].
pub struct Report {
    pub location: Seq<char>,
    pub units: Units,
    pub current: Current,
    pub forecast: Seq<Day>,
}

/// The model of [`CurrentConditions`].
pub struct Current {
    pub temperature: int,
    pub temperature_other_units: int,
    pub humidity: int,
    pub wind_speed: Seq<char>,
    pub weather_code: int,
}

impl View for CurrentConditions {
    type V = Current;

    open spec fn view(&self) -> Current {
        Current {
            temperature: self.temperature as int,
            temperature_other_units: self.temperature_other_units as int,
            humidity: self.humidity as int,
            wind_speed: self.wind_speed@,
            weather_code: self.weather_code as int,
        }
    }
}

impl View for WeatherReport {
    type V = Report;

    open spec fn view(&self) -> Report {
        Report {
            location: self.location@,
            units: self.units,
            current: self.current@,
            forecast: day_views(self.forecast@),
        }
    }
}

// ---------------------------------------------------------------------------
// Making a report
// ---------------------------------------------------------------------------

/// The report that answers a request, made of what the forecast service answers.
pub open spec fn report_of(request: Request, response: ForecastResponse) -> Result<
    Report,
    Failure,
> {
    match response.daily.forecast() {
        Err(failure) => Err(failure),
        Ok(forecast) => Ok(
            Report {
                location: request.location,
                units: request.units,
                current: Current {
                    temperature: response.current.temperature_2m as int,
                    temperature_other_units: response.current.temperature_2m_other_units as int,
                    humidity: response.current.relative_humidity_2m as int,
                    wind_speed: response.current.wind_speed_10m@,
                    weather_code: response.current.weather_code as int,
                },
                forecast,
            },
        ),
    }
}

/// The report that answers a request, made of what the forecast service answers.
pub fn fetch_weather(options: &RequestOptions, forecast: &ForecastResponse) -> (result: Result<
    WeatherReport,
    WeatherError,
>)
    ensures
        match result {
            Ok(report) => report_of(options@, *forecast) == Ok::<Report, Failure>(report@),
            Err(error) => report_of(options@, *forecast) == Err::<Report, Failure>(error@),
        },
{
    match build_forecast(&forecast.daily) {
        Ok(days) => Ok(
            WeatherReport {
                location: options.location.clone(),
                units: options.units,
                current: CurrentConditions {
                    temperature: forecast.current.temperature_2m,
                    temperature_other_units: forecast.current.temperature_2m_other_units,
                    humidity: forecast.current.relative_humidity_2m,
                    wind_speed: forecast.current.wind_speed_10m.clone(),
                    weather_code: forecast.current.weather_code,
                },
                forecast: days,
            },
        ),
        Err(error) => Err(error),
    }
}

// ---------------------------------------------------------------------------
// Showing a report
// ---------------------------------------------------------------------------

/// A temperature: whole degrees and the symbol of the units.
pub open spec fn temperature(value: int, units: Units) -> Seq<char> {
    decimal(value) + units.symbol_text()
}

/// The temperature of the moment: in the units of the report, and in brackets in the other units.
pub open spec fn current_temperature(value: int, other: int, units: Units) -> Seq<char> {
    temperature(value, units) + " ("@ + temperature(other, units.opposite()) + ")"@
}

/// The line of a report for one day.
pub open spec fn day_line(day: Day, units: Units) -> Seq<char> {
    "  "@ + day.label + ": "@ + code_emoji(day.weather_code) + " "@ + temperature(day.high, units)
        + " / "@ + temperature(day.low, units) + " — "@ + code_description(day.weather_code)
}

/// The lines that stand before the days.
pub open spec fn head_lines(report: Report) -> Seq<Seq<char>> {
    seq![
        "🌤️ Weather for "@ + report.location,
        seq![],
        "Current: "@ + current_temperature(
            report.current.temperature,
            report.current.temperature_other_units,
            report.units,
        ) + ", "@ + code_description(report.current.weather_code),
        "Humidity: "@ + decimal(report.current.humidity) + "% | Wind: "@ + report.current.wind_speed
            + " "@ + report.units.wind_unit_text(),
        seq![],
        "📅 3-Day Forecast:"@,
    ]
}

/// The lines of a report: the head, and one line for each day.
pub open spec fn report_lines(report: Report) -> Seq<Seq<char>> {
    head_lines(report) + report.forecast.map_values(|day: Day| day_line(day, report.units))
}

/// The text of a report: its lines, with a line feed between them.
pub open spec fn report_text(report: Report) -> Seq<char> {
    join(report_lines(report), "\n"@)
}

/// A temperature: whole degrees and the symbol of the units.
pub fn temperature_text(value: i32, units: Units) -> (text: String)
    ensures
        text@ == temperature(value as int, units),
{
    let mut text = signed_text(value);
    text.append(units.symbol());
    text
}

/// The temperature of the moment: in the units of the report, and in brackets in the other units.
pub fn current_temperature_text(value: i32, other: i32, units: Units) -> (text: String)
    ensures
        text@ == current_temperature(value as int, other as int, units),
{
    let mut text = temperature_text(value, units);
    text.append(" (");
    text.append(temperature_text(other, units.other()).as_str());
    text.append(")");
    text
}

fn day_text(day: &ForecastDay, units: Units) -> (line: String)
    ensures
        line@ == day_line(day@, units),
{
    let condition = weather_condition(day.weather_code);
    let mut line = "  ".to_string();
    line.append(day.label.as_str());
    line.append(": ");
    line.append(condition.emoji);
    line.append(" ");
    line.append(temperature_text(day.high, units).as_str());
    line.append(" / ");
    line.append(temperature_text(day.low, units).as_str());
    line.append(" — ");
    line.append(condition.description);
    line
}

fn head_texts(report: &WeatherReport) -> (lines: Vec<String>)
    ensures
        views(lines@) == head_lines(report@),
{
    let condition = weather_condition(report.current.weather_code);
    let mut title = "🌤️ Weather for ".to_string();
    title.append(report.location.as_str());
    let mut current = "Current: ".to_string();
    current.append(
        current_temperature_text(
            report.current.temperature,
            report.current.temperature_other_units,
            report.units,
        ).as_str(),
    );
    current.append(", ");
    current.append(condition.description);
    let mut air = "Humidity: ".to_string();
    air.append(unsigned_text(report.current.humidity as u64).as_str());
    air.append("% | Wind: ");
    air.append(report.current.wind_speed.as_str());
    air.append(" ");
    air.append(report.units.wind_unit());
    let mut lines: Vec<String> = Vec::new();
    lines.push(title);
    lines.push(String::new());
    lines.push(current);
    lines.push(air);
    lines.push(String::new());
    lines.push("📅 3-Day Forecast:".to_string());
    assert(views(lines@) == head_lines(report@));
    lines
}

/// The text of a report.
pub fn format_report(report: &WeatherReport) -> (text: String)
    ensures
        text@ == report_text(report@),
{
    let ghost head = head_lines(report@);
    let ghost days = report@.forecast.map_values(|day: Day| day_line(day, report@.units));
    let mut lines = head_texts(report);
    assert(views(lines@) == head + days.take(0));
    for i in 0..report.forecast.len()
        invariant
            head == head_lines(report@),
            days == report@.forecast.map_values(|day: Day| day_line(day, report@.units)),
            views(lines@) == head + days.take(i as int),
    {
        let line = day_text(&report.forecast[i], report.units);
        assert(days[i as int] == line@);
        let ghost before = views(lines@);
        lines.push(line);
        assert(views(lines@) == before.push(line@));
        assert(views(lines@) == head + days.take(i + 1));
    }
    assert(views(lines@) == report_lines(report@));
    join_texts(&lines, "\n")
}

/// A report has six lines of head and one line for each day that it covers: one to three.
pub proof fn report_has_a_line_for_each_day(request: Request, response: ForecastResponse)
    requires
        report_of(request, response) is Ok,
    ensures
        ({
            let report = report_of(request, response)->Ok_0;
            &&& 1 <= report.forecast.len() <= FORECAST_DAYS
            &&& report_lines(report).len() == 6 + report.forecast.len()
            &&& forall|i: int|
                0 <= i < report.forecast.len() ==> #[trigger] report_lines(report)[6 + i]
                    == day_line(report.forecast[i], report.units)
        }),
{
    forecast_keeps_entries_together(response.daily);
}

// ---------------------------------------------------------------------------
// The lines of a report in its text
// ---------------------------------------------------------------------------

/// Whether a text has no line feed in it.
pub open spec fn single_line(text: Seq<char>) -> bool {
    !text.contains('\n')
}

/// The lines of a report can be told apart in its text: where the name of the place and the wind
/// speed have no line feed in them, splitting the text at the line feeds gives the lines.
pub proof fn report_text_splits_into_lines(request: Request, response: ForecastResponse)
    requires
        report_of(request, response) is Ok,
        single_line(request.location),
        single_line(response.current.wind_speed_10m@),
    ensures
        ({
            let report = report_of(request, response)->Ok_0;
            split(report_text(report), '\n') == report_lines(report)
        }),
{
    let report = report_of(request, response)->Ok_0;
    let lines = report_lines(report);
    forecast_keeps_entries_together(response.daily);
    lemma_head_lines(report);
    assert forall|i: int| 0 <= i < lines.len() implies !(#[trigger] lines[i]).contains('\n') by {
        if i < 6 {
            assert(single_line(head_lines(report)[i]));
        } else {
            let day = report.forecast[i - 6];
            let date = response.daily.time@[i - 6]@;
            assert(date_label(date) == Ok::<Seq<char>, Failure>(day.label));
            lemma_weekday_names();
            lemma_day_line(day, report.units);
        }
    }
    reveal_strlit("\n");
    assert("\n"@ == seq!['\n']);
    join_then_split(lines, '\n');
}

proof fn lemma_concat(one: Seq<char>, other: Seq<char>)
    requires
        single_line(one),
        single_line(other),
    ensures
        single_line(one + other),
{
    assert forall|i: int| 0 <= i < (one + other).len() implies (one + other)[i] != '\n' by {
        if i < one.len() {
            assert(one.contains(one[i]));
        } else {
            assert(other.contains(other[i - one.len()]));
        }
    }
}

proof fn lemma_digits(value: nat)
    ensures
        single_line(digits(value)),
    decreases value,
{
    if value >= 10 {
        lemma_digits(value / 10);
        let last = digit((value % 10) as int);
        assert(last != '\n');
        lemma_concat(digits(value / 10), seq![last]);
        assert(digits(value) == digits(value / 10) + seq![last]);
    } else {
        assert(digit(value as int) != '\n');
    }
}

proof fn lemma_decimal(value: int)
    ensures
        single_line(decimal(value)),
{
    if value < 0 {
        lemma_digits((-value) as nat);
        lemma_concat(seq!['-'], digits((-value) as nat));
    } else {
        lemma_digits(value as nat);
    }
}

proof fn lemma_temperature(value: int, units: Units)
    ensures
        single_line(temperature(value, units)),
{
    reveal_strlit("°C");
    reveal_strlit("°F");
    lemma_decimal(value);
    lemma_concat(decimal(value), units.symbol_text());
}

proof fn lemma_weekday_names()
    ensures
        forall|weekday: int| single_line(#[trigger] weekday_name(weekday)),
{
    reveal_strlit("Sun");
    reveal_strlit("Mon");
    reveal_strlit("Tue");
    reveal_strlit("Wed");
    reveal_strlit("Thu");
    reveal_strlit("Fri");
    reveal_strlit("Sat");
}

proof fn lemma_conditions(code: int)
    ensures
        single_line(code_emoji(code)),
        single_line(code_description(code)),
{
    reveal_strlit("☀️");
    reveal_strlit("⛅");
    reveal_strlit("🌫️");
    reveal_strlit("🌦️");
    reveal_strlit("🌧️");
    reveal_strlit("❄️");
    reveal_strlit("🌨️");
    reveal_strlit("⛈️");
    reveal_strlit("🌤️");
    reveal_strlit("Clear Sky");
    reveal_strlit("Partly Cloudy");
    reveal_strlit("Fog");
    reveal_strlit("Drizzle");
    reveal_strlit("Freezing Drizzle");
    reveal_strlit("Rain");
    reveal_strlit("Freezing Rain");
    reveal_strlit("Snow");
    reveal_strlit("Snow Grains");
    reveal_strlit("Rain Showers");
    reveal_strlit("Snow Showers");
    reveal_strlit("Thunderstorm");
    reveal_strlit("Thunderstorm With Hail");
    reveal_strlit("Unknown Conditions");
}

proof fn lemma_day_line(day: Day, units: Units)
    requires
        single_line(day.label),
    ensures
        single_line(day_line(day, units)),
{
    reveal_strlit("  ");
    reveal_strlit(": ");
    reveal_strlit(" ");
    reveal_strlit(" / ");
    reveal_strlit(" — ");
    lemma_conditions(day.weather_code);
    lemma_temperature(day.high, units);
    lemma_temperature(day.low, units);
    let a = "  "@ + day.label;
    let b = a + ": "@;
    let c = b + code_emoji(day.weather_code);
    let d = c + " "@;
    let e = d + temperature(day.high, units);
    let f = e + " / "@;
    let g = f + temperature(day.low, units);
    let h = g + " — "@;
    lemma_concat("  "@, day.label);
    lemma_concat(a, ": "@);
    lemma_concat(b, code_emoji(day.weather_code));
    lemma_concat(c, " "@);
    lemma_concat(d, temperature(day.high, units));
    lemma_concat(e, " / "@);
    lemma_concat(f, temperature(day.low, units));
    lemma_concat(g, " — "@);
    lemma_concat(h, code_description(day.weather_code));
}

proof fn lemma_head_lines(report: Report)
    requires
        single_line(report.location),
        single_line(report.current.wind_speed),
    ensures
        forall|i: int| 0 <= i < 6 ==> single_line(#[trigger] head_lines(report)[i]),
{
    lemma_title_line(report);
    lemma_current_line(report);
    lemma_air_line(report);
    reveal_strlit("📅 3-Day Forecast:");
}

proof fn lemma_title_line(report: Report)
    requires
        single_line(report.location),
    ensures
        single_line(head_lines(report)[0]),
{
    reveal_strlit("🌤️ Weather for ");
    lemma_concat("🌤️ Weather for "@, report.location);
}

proof fn lemma_current_line(report: Report)
    ensures
        single_line(head_lines(report)[2]),
{
    reveal_strlit("Current: ");
    reveal_strlit(" (");
    reveal_strlit(")");
    reveal_strlit(", ");
    let value = temperature(report.current.temperature, report.units);
    let other = temperature(report.current.temperature_other_units, report.units.opposite());
    lemma_temperature(report.current.temperature, report.units);
    lemma_temperature(report.current.temperature_other_units, report.units.opposite());
    lemma_conditions(report.current.weather_code);
    lemma_concat(value, " ("@);
    lemma_concat(value + " ("@, other);
    lemma_concat(value + " ("@ + other, ")"@);
    let both = value + " ("@ + other + ")"@;
    lemma_concat("Current: "@, both);
    lemma_concat("Current: "@ + both, ", "@);
    lemma_concat("Current: "@ + both + ", "@, code_description(report.current.weather_code));
}

proof fn lemma_air_line(report: Report)
    requires
        single_line(report.current.wind_speed),
    ensures
        single_line(head_lines(report)[3]),
{
    reveal_strlit("Humidity: ");
    reveal_strlit("% | Wind: ");
    reveal_strlit(" ");
    reveal_strlit("km/h");
    reveal_strlit("mph");
    let humidity = decimal(report.current.humidity);
    let wind = report.current.wind_speed;
    lemma_decimal(report.current.humidity);
    lemma_concat("Humidity: "@, humidity);
    lemma_concat("Humidity: "@ + humidity, "% | Wind: "@);
    lemma_concat("Humidity: "@ + humidity + "% | Wind: "@, wind);
    lemma_concat("Humidity: "@ + humidity + "% | Wind: "@ + wind, " "@);
    lemma_concat(
        "Humidity: "@ + humidity + "% | Wind: "@ + wind + " "@,
        report.units.wind_unit_text(),
    );
}

} // verus!
