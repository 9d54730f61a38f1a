use weather_skill::calendar::{parse_iso_date, weekday_label};
use weather_skill::conditions::weather_condition;
use weather_skill::error::{error_output, WeatherError};
use weather_skill::forecast::{
    build_forecast, forecast_entry_count, ApiDailyForecast, ForecastDay,
};
use weather_skill::geocode::GeocodeResponse;
use weather_skill::host::{parse_json_response, require_response_body};
use weather_skill::query::{parse_query, RequestOptions, WeatherQuery};
use weather_skill::report::{
    current_temperature_text, format_report, CurrentConditions, WeatherReport,
};
use weather_skill::units::{parse_units, temperature_conversion, Units};
use weather_skill::url::encode_query_component;

/// Applies the library's conversion to a floating-point temperature.
fn convert_temperature(value: f64, from: Units, to: Units) -> f64 {
    let conversion = temperature_conversion(from, to);
    (value - f64::from(conversion.subtract)) * f64::from(conversion.multiply)
        / f64::from(conversion.divide)
        + f64::from(conversion.add)
}

/// Reads the members of a request object.
fn read_query(input: &str) -> Result<RequestOptions, WeatherError> {
    let member = |value: &serde_json::Value, name: &str| {
        value.get(name).and_then(|text| text.as_str()).map(|text| text.to_string())
    };
    let parsed = match serde_json::from_str::<serde_json::Value>(input) {
        Ok(value) => Ok(WeatherQuery {
            location: member(&value, "location"),
            units: member(&value, "units"),
        }),
        Err(error) => Err(error.to_string()),
    };
    parse_query(parsed)
}

#[test]
fn weather_code_mapping_matches_wmo_groups() {
    assert_eq!(weather_condition(0).description, "Clear Sky");
    assert_eq!(weather_condition(2).description, "Partly Cloudy");
    assert_eq!(weather_condition(48).description, "Fog");
    assert_eq!(weather_condition(53).description, "Drizzle");
    assert_eq!(weather_condition(56).description, "Freezing Drizzle");
    assert_eq!(weather_condition(63).description, "Rain");
    assert_eq!(weather_condition(66).description, "Freezing Rain");
    assert_eq!(weather_condition(73).description, "Snow");
    assert_eq!(weather_condition(77).description, "Snow Grains");
    assert_eq!(weather_condition(81).description, "Rain Showers");
    assert_eq!(weather_condition(85).description, "Snow Showers");
    assert_eq!(weather_condition(95).description, "Thunderstorm");
    assert_eq!(weather_condition(96).description, "Thunderstorm With Hail");
}

#[test]
fn temperature_unit_conversion_handles_both_directions() {
    let fahrenheit = convert_temperature(22.0, Units::Celsius, Units::Fahrenheit);
    let celsius = convert_temperature(72.0, Units::Fahrenheit, Units::Celsius);

    assert!((fahrenheit - 71.6).abs() < 0.01);
    assert!((celsius - 22.222_222).abs() < 0.01);
}

#[test]
fn temperature_unit_conversion_returns_identity_for_same_units() {
    assert_eq!(convert_temperature(22.0, Units::Celsius, Units::Celsius), 22.0);
    assert_eq!(convert_temperature(72.0, Units::Fahrenheit, Units::Fahrenheit), 72.0);
}

#[test]
fn input_json_parsing_defaults_to_fahrenheit() {
    let query = read_query(r#"{"location":"Tokyo"}"#).expect("query should parse");

    assert_eq!(query.location, "Tokyo");
    assert_eq!(query.units, Units::Fahrenheit);
}

#[test]
fn input_json_parsing_accepts_explicit_units() {
    let query =
        read_query(r#"{"location":"London","units":"celsius"}"#).expect("query should parse");

    assert_eq!(query.location, "London");
    assert_eq!(query.units, Units::Celsius);
}

#[test]
fn missing_location_returns_friendly_error() {
    let error = read_query(r#"{"units":"fahrenheit"}"#).expect_err("location is required");
    assert_eq!(error.to_string(), "Please provide a location, like 'Denver, CO'.");
}

#[test]
fn invalid_units_are_rejected() {
    let error = parse_units(Some("kelvin")).expect_err("units should be rejected");
    assert_eq!(
        error.to_string(),
        "Unsupported units 'kelvin'. Use 'celsius' or 'fahrenheit'."
    );
}

#[test]
fn malformed_query_json_returns_friendly_error() {
    let error = read_query("not json").expect_err("json should be rejected");
    assert!(error
        .to_string()
        .starts_with("Invalid input JSON: expected ident at line 1 column 2."));
}

#[test]
fn response_formatting_matches_expected_layout() {
    let output = format_report(&sample_weather_report());
    let expected = "🌤️ Weather for Denver, CO\n\n\
                    Current: 72°F (22°C), Partly Cloudy\n\
                    Humidity: 35% | Wind: 12 mph\n\n\
                    📅 3-Day Forecast:\n  \
                    Mon: ☀️ 75°F / 48°F — Clear Sky\n  \
                    Tue: 🌧️ 62°F / 41°F — Rain\n  \
                    Wed: ⛅ 68°F / 45°F — Partly Cloudy";

    assert_eq!(output, expected);
}

#[test]
fn current_temperature_text_includes_secondary_units() {
    let secondary = convert_temperature(72.0, Units::Fahrenheit, Units::Fahrenheit.other());
    assert_eq!(
        current_temperature_text(72, secondary.round() as i32, Units::Fahrenheit),
        "72°F (22°C)"
    );
}

#[test]
fn encode_query_component_handles_spaces_unicode_and_symbols() {
    assert_eq!(encode_query_component("São Paulo & Co"), "S%C3%A3o%20Paulo%20%26%20Co");
}

#[test]
fn weekday_label_uses_iso_dates() {
    let label = weekday_label("2026-03-09").expect("date should parse");
    assert_eq!(label, "Mon");
}

#[test]
fn weekday_label_handles_known_historical_date() {
    let label = weekday_label("2000-01-01").expect("date should parse");
    assert_eq!(label, "Sat");
}

#[test]
fn parse_iso_date_rejects_invalid_dates() {
    let malformed = parse_iso_date("not-a-date").expect_err("date should be rejected");
    assert_eq!(malformed.to_string(), "Invalid year in forecast date 'not-a-date'.");

    for date in [
        "2026-00-15",
        "2026-13-01",
        "2026-02-29",
        "2024-02-30",
        "2026-04-31",
        "2026-03-09-extra",
    ] {
        let error = parse_iso_date(date).expect_err("date should be rejected");
        assert_eq!(error.to_string(), format!("Invalid forecast date '{date}'."));
    }
}

#[test]
fn empty_http_response_returns_request_failed_error() {
    let error = require_response_body(String::new()).expect_err("empty response should fail");
    assert_eq!(error.to_string(), "Weather service request failed.");
}

#[test]
fn invalid_json_response_returns_parse_error() {
    let parsed = match serde_json::from_str::<serde_json::Value>("not json") {
        Ok(_) => Ok(GeocodeResponse { results: None }),
        Err(error) => Err(error.to_string()),
    };
    let error =
        parse_json_response::<GeocodeResponse>(parsed).expect_err("json response should fail");
    assert!(error
        .to_string()
        .starts_with("Failed to parse weather data: expected ident at line 1 column 2"));
}

#[test]
fn build_forecast_rejects_empty_daily_data() {
    let error = build_forecast(&sample_daily_forecast(vec![], vec![], vec![], vec![]))
        .expect_err("empty forecast should fail");
    assert_eq!(error.to_string(), "Weather forecast was missing daily data.");
}

#[test]
fn build_forecast_truncates_to_available_days() {
    let forecast = build_forecast(&sample_daily_forecast(
        vec!["2026-03-09", "2026-03-10"],
        vec![0, 61],
        vec![75.0, 62.0],
        vec![48.0, 41.0],
    ))
    .expect("forecast should build");

    assert_eq!(forecast.len(), 2);
    assert_eq!(forecast[0].label, "Mon");
    assert_eq!(forecast[1].label, "Tue");
}

#[test]
fn forecast_entry_count_uses_shortest_array_length() {
    let total = forecast_entry_count(&sample_daily_forecast(
        vec!["2026-03-09", "2026-03-10", "2026-03-11"],
        vec![0, 61],
        vec![75.0, 62.0, 68.0],
        vec![48.0, 41.0, 45.0],
    ));

    assert_eq!(total, 2);
}

#[test]
fn error_output_matches_json_contract() {
    let output = error_output(&WeatherError::Api("Weather service request failed.".to_string()));
    assert_eq!(output, r#"{"error": "Weather service request failed."}"#);
}

fn rounded(value: f64) -> i32 {
    value.round() as i32
}

fn sample_day(label: &str, high: f64, low: f64, weather_code: u32) -> ForecastDay {
    ForecastDay {
        label: label.to_string(),
        high: rounded(high),
        low: rounded(low),
        weather_code,
    }
}

fn sample_weather_report() -> WeatherReport {
    WeatherReport {
        location: "Denver, CO".to_string(),
        units: Units::Fahrenheit,
        current: CurrentConditions {
            temperature: rounded(72.0),
            temperature_other_units: rounded(convert_temperature(
                72.0,
                Units::Fahrenheit,
                Units::Celsius,
            )),
            humidity: 35,
            wind_speed: format!("{:.0}", 12.0),
            weather_code: 2,
        },
        forecast: vec![
            sample_day("Mon", 75.0, 48.0, 0),
            sample_day("Tue", 62.0, 41.0, 61),
            sample_day("Wed", 68.0, 45.0, 2),
        ],
    }
}

fn sample_daily_forecast(
    dates: Vec<&str>,
    weather_codes: Vec<u32>,
    highs: Vec<f64>,
    lows: Vec<f64>,
) -> ApiDailyForecast {
    ApiDailyForecast {
        time: dates.into_iter().map(str::to_string).collect(),
        weather_code: weather_codes,
        temperature_2m_max: highs.into_iter().map(rounded).collect(),
        temperature_2m_min: lows.into_iter().map(rounded).collect(),
    }
}
