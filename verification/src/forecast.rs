//! The forecast for the coming days.

use vstd::prelude::*;
use vstd::string::*;

use crate::calendar::date_label;
use crate::calendar::weekday_label;
use crate::decimal::decimal;
use crate::decimal::unsigned_text;
use crate::error::Failure;
use crate::error::WeatherError;

verus! {

/// The number of days that a report covers at most.
pub const FORECAST_DAYS: usize = 3;

/// What the forecast service answers.
#[derive(Debug, Clone, PartialEq, Eq)]
pub struct ForecastResponse {
    pub current: ApiCurrentWeather,
    pub daily: ApiDailyForecast,
}

/// The weather of the moment. Temperatures are rounded to whole degrees, once in the units of
/// the request and once in the other units; the wind speed is the text of its rounded value.
#[derive(Debug, Clone, PartialEq, Eq)]
pub struct ApiCurrentWeather {
    pub temperature_2m: i32,
    pub temperature_2m_other_units: i32,
    pub relative_humidity_2m: u32,
    pub wind_speed_10m: String,
    pub weather_code: u32,
}

/// The weather of the coming days: the entries at one index of the four lists belong together.
/// Temperatures are rounded to whole degrees.
#[derive(Debug, Clone, PartialEq, Eq)]
pub struct ApiDailyForecast {
    pub time: Vec<String>,
    pub weather_code: Vec<u32>,
    pub temperature_2m_max: Vec<i32>,
    pub temperature_2m_min: Vec<i32>,
}

/// The forecast for one day.
#[derive(Debug, Clone, PartialEq, Eq)]
pub struct ForecastDay {
    pub label: String,
    pub high: i32,
    pub low: i32,
    pub weather_code: u32,
}

/// The model of [`ForecastDay`].
pub struct Day {
    pub label: Seq<char>,
    pub high: int,
    pub low: int,
    pub weather_code: int,
}

impl View for ForecastDay {
    type V = Day;

    open spec fn view(&self) -> Day {
        Day {
            label: self.label@,
            high: self.high as int,
            low: self.low as int,
            weather_code: self.weather_code as int,
        }
    }
}

/// The models of a list of days.
pub open spec fn day_views(days: Seq<ForecastDay>) -> Seq<Day> {
    days.map_values(|day: ForecastDay| day@)
}

/// The smaller of two numbers.
pub open spec fn lesser(one: int, other: int) -> int {
    if one <= other {
        one
    } else {
        other
    }
}

impl ApiDailyForecast {
    /// The number of days for which every list has an entry: the length of the shortest.
    pub open spec fn entry_count(self) -> int {
        lesser(
            lesser(self.time@.len() as int, self.weather_code@.len() as int),
            lesser(self.temperature_2m_max@.len() as int, self.temperature_2m_min@.len() as int),
        )
    }

    /// Whether some list has a length other than `expected`.
    pub open spec fn mismatched(self, expected: int) -> bool {
        ||| self.time@.len() != expected
        ||| self.weather_code@.len() != expected
        ||| self.temperature_2m_max@.len() != expected
        ||| self.temperature_2m_min@.len() != expected
    }

    /// The forecasts for the first `n` days; the first date that cannot be read decides the
    /// failure.
    pub open spec fn first_days(self, n: int) -> Result<Seq<Day>, Failure>
        decreases n,
    {
        if n <= 0 {
            Ok(seq![])
        } else {
            match self.first_days(n - 1) {
                Err(failure) => Err(failure),
                Ok(days) => match date_label(self.time@[n - 1]@) {
                    Err(failure) => Err(failure),
                    Ok(label) => Ok(
                        days.push(
                            Day {
                                label,
                                high: self.temperature_2m_max@[n - 1] as int,
                                low: self.temperature_2m_min@[n - 1] as int,
                                weather_code: self.weather_code@[n - 1] as int,
                            },
                        ),
                    ),
                },
            }
        }
    }

    /// The number of days that a report covers.
    pub open spec fn reported_days(self) -> int {
        lesser(self.entry_count(), FORECAST_DAYS as int)
    }

    /// The forecast of a report: the first days for which every list has an entry, and no more
    /// than a report covers. Where there is no such day, there is no forecast.
    pub open spec fn forecast(self) -> Result<Seq<Day>, Failure> {
        if self.entry_count() == 0 {
            Err(Failure::Api("Weather forecast was missing daily data."@))
        } else {
            self.first_days(self.reported_days())
        }
    }

    /// What is logged where the lists have different lengths.
    pub open spec fn length_warning(self) -> Option<Seq<char>> {
        if self.mismatched(self.entry_count()) {
            Some(
                "Forecast arrays had mismatched lengths; truncating to "@ + decimal(
                    self.entry_count(),
                ) + " entries (time="@ + decimal(self.time@.len() as int) + ", weather_code="@
                    + decimal(self.weather_code@.len() as int) + ", temperature_2m_max="@
                    + decimal(self.temperature_2m_max@.len() as int) + ", temperature_2m_min="@
                    + decimal(self.temperature_2m_min@.len() as int) + ")."@,
            )
        } else {
            None
        }
    }
}

fn smaller(one: usize, other: usize) -> (result: usize)
    ensures
        result == lesser(one as int, other as int),
{
    if one <= other {
        one
    } else {
        other
    }
}

/// The number of days for which every list has an entry.
pub fn forecast_entry_count(daily: &ApiDailyForecast) -> (total: usize)
    ensures
        total == daily.entry_count(),
{
    smaller(
        smaller(daily.time.len(), daily.weather_code.len()),
        smaller(daily.temperature_2m_max.len(), daily.temperature_2m_min.len()),
    )
}

/// Whether some list has a length other than `expected`.
pub fn has_mismatched_daily_lengths(daily: &ApiDailyForecast, expected: usize) -> (found: bool)
    ensures
        found == daily.mismatched(expected as int),
{
    daily.time.len() != expected || daily.weather_code.len() != expected
        || daily.temperature_2m_max.len() != expected || daily.temperature_2m_min.len() != expected
}

/// What is logged where the lists have different lengths; nothing where they agree.
pub fn forecast_length_warning(daily: &ApiDailyForecast) -> (warning: Option<String>)
    ensures
        match warning {
            Some(message) => daily.length_warning() == Some(message@),
            None => daily.length_warning() is None,
        },
{
    let total: usize = forecast_entry_count(daily);
    if has_mismatched_daily_lengths(daily, total) {
        let mut message = "Forecast arrays had mismatched lengths; truncating to ".to_string();
        message.append(unsigned_text(total as u64).as_str());
        message.append(" entries (time=");
        message.append(unsigned_text(daily.time.len() as u64).as_str());
        message.append(", weather_code=");
        message.append(unsigned_text(daily.weather_code.len() as u64).as_str());
        message.append(", temperature_2m_max=");
        message.append(unsigned_text(daily.temperature_2m_max.len() as u64).as_str());
        message.append(", temperature_2m_min=");
        message.append(unsigned_text(daily.temperature_2m_min.len() as u64).as_str());
        message.append(").");
        Some(message)
    } else {
        None
    }
}

/// The forecast of a report.
pub fn build_forecast(daily: &ApiDailyForecast) -> (result: Result<Vec<ForecastDay>, WeatherError>)
    ensures
        match result {
            Ok(days) => daily.forecast() == Ok::<Seq<Day>, Failure>(day_views(days@)),
            Err(error) => daily.forecast() == Err::<Seq<Day>, Failure>(error@),
        },
{
    let total: usize = forecast_entry_count(daily);
    if total == 0 {
        return Err(WeatherError::Api("Weather forecast was missing daily data.".to_string()));
    }
    let count: usize = smaller(total, FORECAST_DAYS);
    let mut days: Vec<ForecastDay> = Vec::with_capacity(count);
    assert(day_views(days@) == Seq::<Day>::empty());
    for index in 0..count
        invariant
            total == daily.entry_count(),
            count == daily.reported_days(),
            daily.first_days(index as int) == Ok::<Seq<Day>, Failure>(day_views(days@)),
    {
        let label = match weekday_label(daily.time[index].as_str()) {
            Ok(label) => label,
            Err(error) => {
                proof {
                    lemma_failure_stays(*daily, index + 1, count as int);
                }
                return Err(error);
            },
        };
        let day = ForecastDay {
            label,
            high: daily.temperature_2m_max[index],
            low: daily.temperature_2m_min[index],
            weather_code: daily.weather_code[index],
        };
        let ghost before = day_views(days@);
        days.push(day);
        assert(day_views(days@) == before.push(day@));
    }
    Ok(days)
}

proof fn lemma_failure_stays(daily: ApiDailyForecast, n: int, m: int)
    requires
        n <= m,
        daily.first_days(n) is Err,
    ensures
        daily.first_days(m) == daily.first_days(n),
    decreases m - n,
{
    if n < m {
        lemma_failure_stays(daily, n, m - 1);
    }
}

/// A forecast covers the first days, at most as many as a report holds, and each of its days is
/// made of the entries at one index: the weekday of the date, the two temperatures and the code.
pub proof fn forecast_keeps_entries_together(daily: ApiDailyForecast)
    requires
        daily.forecast() is Ok,
    ensures
        ({
            let days = daily.forecast()->Ok_0;
            &&& 1 <= days.len() <= FORECAST_DAYS
            &&& days.len() == daily.reported_days()
            &&& forall|i: int|
                #![trigger days[i]]
                0 <= i < days.len() ==> {
                    &&& date_label(daily.time@[i]@) == Ok::<Seq<char>, Failure>(days[i].label)
                    &&& days[i].high == daily.temperature_2m_max@[i]
                    &&& days[i].low == daily.temperature_2m_min@[i]
                    &&& days[i].weather_code == daily.weather_code@[i]
                }
        }),
{
    lemma_first_days(daily, daily.reported_days());
}

proof fn lemma_first_days(daily: ApiDailyForecast, n: int)
    requires
        n >= 0,
        daily.first_days(n) is Ok,
    ensures
        ({
            let days = daily.first_days(n)->Ok_0;
            &&& days.len() == n
            &&& forall|i: int|
                #![trigger days[i]]
                0 <= i < n ==> {
                    &&& date_label(daily.time@[i]@) == Ok::<Seq<char>, Failure>(days[i].label)
                    &&& days[i].high == daily.temperature_2m_max@[i]
                    &&& days[i].low == daily.temperature_2m_min@[i]
                    &&& days[i].weather_code == daily.weather_code@[i]
                }
        }),
    decreases n,
{
    if n > 0 {
        lemma_first_days(daily, n - 1);
    }
}

/// There is a forecast exactly where there is at least one complete entry and every date that a
/// report covers can be read. Dates beyond those are not looked at.
pub proof fn forecast_needs_readable_dates(daily: ApiDailyForecast)
    ensures
        daily.forecast() is Ok <==> daily.entry_count() > 0 && forall|i: int|
            0 <= i < daily.reported_days() ==> date_label(#[trigger] daily.time@[i]@) is Ok,
{
    lemma_dates_decide(daily, daily.reported_days());
}

proof fn lemma_dates_decide(daily: ApiDailyForecast, n: int)
    ensures
        daily.first_days(n) is Ok <==> forall|i: int|
            0 <= i < n ==> date_label(#[trigger] daily.time@[i]@) is Ok,
    decreases n,
{
    if n > 0 {
        lemma_dates_decide(daily, n - 1);
        if daily.first_days(n) is Ok {
            assert forall|i: int| 0 <= i < n implies date_label(#[trigger] daily.time@[i]@) is Ok by {
                if i < n - 1 {
                }
            }
        } else if forall|i: int| 0 <= i < n ==> date_label(#[trigger] daily.time@[i]@) is Ok {
            assert(date_label(daily.time@[n - 1]@) is Ok);
        }
    }
}

} // verus!
