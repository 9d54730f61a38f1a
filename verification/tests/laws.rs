use weather_skill::calendar::{
    is_leap_year, max_day_in_month, parse_date_part, parse_iso_date, validate_date_parts,
    weekday_index, weekday_label,
};
use weather_skill::conditions::weather_condition;
use weather_skill::decimal::{parse_i32, signed_text, unsigned_text};
use weather_skill::error::{error_output, WeatherError};
use weather_skill::forecast::{
    build_forecast, forecast_length_warning, has_mismatched_daily_lengths, ApiCurrentWeather,
    ApiDailyForecast, ForecastResponse, FORECAST_DAYS,
};
use weather_skill::geocode::{
    resolve_location, GeocodeResponse, GeocodeResult, ResolvedLocation,
};
use weather_skill::host::{
    answer, host_string_len, http_get_request, parse_json_response, read_host_string,
    require_response_body, MAX_HOST_STRING_LEN,
};
use weather_skill::json::json_string;
use weather_skill::query::{parse_query, RequestOptions, WeatherQuery};
use weather_skill::report::{fetch_weather, format_report, temperature_text};
use weather_skill::skill::{execute, Action, Event};
use weather_skill::text::{
    characters, equal_ignoring_ascii_case, is_white_space, join_texts, split_text, text_between,
    trim,
};
use weather_skill::units::{parse_units, temperature_conversion, Conversion, Units};
use weather_skill::url::{build_geocode_url, build_weather_url, encode_query_component};

// Text

#[test]
fn characters_and_text_between() {
    let chars = characters("Zürich");
    assert_eq!(chars.len(), 6);
    assert_eq!(text_between(&chars, 1, 4), "üri");
    assert_eq!(text_between(&chars, 2, 2), "");
}

#[test]
fn white_space_is_the_unicode_property() {
    for c in '\0'..=char::MAX {
        assert_eq!(is_white_space(c), c.is_whitespace(), "{:?}", c);
    }
}

#[test]
fn trim_takes_white_space_off_both_ends() {
    assert_eq!(trim(" \t\u{3000}New York\u{a0}\r\n"), "New York");
    assert_eq!(trim("Oslo"), "Oslo");
    assert_eq!(trim(" \n "), "");
    assert_eq!(trim(""), "");
}

#[test]
fn ascii_case_is_disregarded_and_other_case_is_not() {
    assert!(equal_ignoring_ascii_case("CeLsIuS", "celsius"));
    assert!(!equal_ignoring_ascii_case("celsiu", "celsius"));
    assert!(!equal_ignoring_ascii_case("É", "é"));
    assert!(!equal_ignoring_ascii_case("[", "{"));
}

#[test]
fn splitting_and_joining_undo_each_other() {
    let parts = split_text("2026-03-09", '-');
    assert_eq!(parts, vec!["2026", "03", "09"]);
    assert_eq!(join_texts(&parts, "-"), "2026-03-09");
    assert_eq!(split_text("", '-'), vec![""]);
    assert_eq!(split_text("-a-", '-'), vec!["", "a", ""]);
    assert_eq!(join_texts(&vec![], "-"), "");
}

// Numbers

#[test]
fn numbers_in_decimal_notation() {
    assert_eq!(unsigned_text(0), "0");
    assert_eq!(unsigned_text(1090), "1090");
    assert_eq!(unsigned_text(u64::MAX), "18446744073709551615");
    assert_eq!(signed_text(-7), "-7");
    assert_eq!(signed_text(i32::MIN), "-2147483648");
    assert_eq!(signed_text(i32::MAX), "2147483647");
}

#[test]
fn numbers_are_read_as_the_standard_library_reads_them() {
    for text in [
        "", "+", "-", "0", "-0", "+7", "-12", "007", "2147483647", "2147483648", "-2147483648",
        "-2147483649", "99999999999999999999", "00000000000000000000002026", " 1", "1 ", "1_000",
        "--1", "+-1", "12a", "٣", "9999999999x",
    ] {
        assert_eq!(parse_i32(text), text.parse::<i32>().ok(), "{:?}", text);
    }
}

#[test]
fn numbers_in_decimal_notation_are_read_back() {
    for number in [i32::MIN, -1000, -1, 0, 1, 9, 10, 2026, i32::MAX] {
        assert_eq!(parse_i32(&signed_text(number)), Some(number));
    }
}

// Calendar

#[test]
fn leap_years_follow_the_gregorian_rule() {
    assert!(is_leap_year(2024));
    assert!(is_leap_year(2000));
    assert!(is_leap_year(0));
    assert!(is_leap_year(-4));
    assert!(!is_leap_year(1900));
    assert!(!is_leap_year(2026));
    assert!(!is_leap_year(-100));
}

#[test]
fn months_have_their_lengths() {
    let lengths: Vec<i32> = (1..=12).map(|month| max_day_in_month(2026, month)).collect();
    assert_eq!(lengths, vec![31, 28, 31, 30, 31, 30, 31, 31, 30, 31, 30, 31]);
    assert_eq!(max_day_in_month(2024, 2), 29);
    assert_eq!(max_day_in_month(2026, 0), 0);
    assert_eq!(max_day_in_month(2026, 13), 0);
}

#[test]
fn consecutive_days_have_consecutive_weekdays() {
    let mut expected = weekday_index(1999, 1, 1);
    assert_eq!(expected, 5);
    for year in 1999..=2101 {
        for month in 1..=12 {
            for day in 1..=max_day_in_month(year, month) {
                assert_eq!(weekday_index(year, month, day), expected);
                expected = (expected + 1) % 7;
            }
        }
    }
}

#[test]
fn weekdays_repeat_after_four_centuries() {
    assert_eq!(weekday_index(1626, 3, 9), weekday_index(2026, 3, 9));
    assert_eq!(weekday_index(2026, 3, 9), 1);
}

#[test]
fn weekdays_exist_for_years_far_away() {
    assert_eq!(weekday_index(0, 3, 1), 3);
    assert_eq!(weekday_index(0, 1, 1), 0);
    assert_eq!(weekday_index(-1, 1, 1), 6);
    assert_eq!(weekday_label("2147483647-01-01"), Ok("Tue".to_string()));
}

#[test]
fn dates_are_read_with_and_without_leading_zeros() {
    assert_eq!(parse_iso_date("2024-02-29"), Ok((2024, 2, 29)));
    assert_eq!(parse_iso_date("2024-2-9"), Ok((2024, 2, 9)));
    assert_eq!(parse_iso_date("+2024-+02-009"), Ok((2024, 2, 9)));
    assert_eq!(parse_iso_date("0-1-1"), Ok((0, 1, 1)));
}

#[test]
fn the_first_bad_part_of_a_date_decides_the_message() {
    let message = |date: &str| parse_iso_date(date).unwrap_err().to_string();
    assert_eq!(message(""), "Invalid year in forecast date ''.");
    assert_eq!(message("-5-01-01"), "Invalid year in forecast date '-5-01-01'.");
    assert_eq!(message("2026"), "Invalid forecast date '2026'.");
    assert_eq!(message("2026-x-y"), "Invalid month in forecast date '2026-x-y'.");
    assert_eq!(message("2026-01"), "Invalid forecast date '2026-01'.");
    assert_eq!(message("2026-01-"), "Invalid day in forecast date '2026-01-'.");
    assert_eq!(message("2026-99-x-y"), "Invalid day in forecast date '2026-99-x-y'.");
    assert_eq!(message("2147483648-01-01"), "Invalid year in forecast date '2147483648-01-01'.");
    assert_eq!(message("2026-01-00"), "Invalid forecast date '2026-01-00'.");
}

#[test]
fn parts_of_a_date() {
    assert_eq!(parse_date_part(Some("07"), "day", "2026-03-07"), Ok(7));
    assert_eq!(
        parse_date_part(Some("x"), "day", "2026-03-x"),
        Err(WeatherError::Api("Invalid day in forecast date '2026-03-x'.".to_string()))
    );
    assert_eq!(
        parse_date_part(None, "day", "2026-03"),
        Err(WeatherError::Api("Invalid forecast date '2026-03'.".to_string()))
    );
    assert_eq!(validate_date_parts(2024, 2, 29, "d"), Ok(()));
    assert_eq!(
        validate_date_parts(2023, 2, 29, "d"),
        Err(WeatherError::Api("Invalid forecast date 'd'.".to_string()))
    );
}

#[test]
fn every_weekday_has_its_label() {
    let labels: Vec<String> =
        (8..15).map(|day| weekday_label(&format!("2026-03-{day:02}")).unwrap()).collect();
    assert_eq!(labels, vec!["Sun", "Mon", "Tue", "Wed", "Thu", "Fri", "Sat"]);
}

// Conditions

#[test]
fn codes_outside_the_groups_are_unknown() {
    for code in [4, 44, 46, 47, 49, 50, 58, 60, 68, 70, 76, 78, 79, 83, 84, 87, 94, 97, 98, 100] {
        assert_eq!(weather_condition(code).description, "Unknown Conditions");
        assert_eq!(weather_condition(code).emoji, "🌤️");
    }
    assert_eq!(weather_condition(u32::MAX).description, "Unknown Conditions");
    assert_eq!(weather_condition(99).description, "Thunderstorm With Hail");
    assert_eq!(weather_condition(45).emoji, "🌫️");
    assert_eq!(weather_condition(86).emoji, "🌨️");
    assert_eq!(weather_condition(95).emoji, "⛈️");
    assert_eq!(weather_condition(77).emoji, "❄️");
    assert_eq!(weather_condition(80).emoji, "🌦️");
}

// Units and requests

#[test]
fn other_units_alternate() {
    for units in [Units::Celsius, Units::Fahrenheit] {
        assert_ne!(units.other(), units);
        assert_eq!(units.other().other(), units);
    }
    assert_eq!(Units::Celsius.symbol(), "°C");
    assert_eq!(Units::Fahrenheit.symbol(), "°F");
    assert_eq!(Units::Celsius.wind_unit(), "km/h");
    assert_eq!(Units::Fahrenheit.wind_unit(), "mph");
}

#[test]
fn units_are_chosen_in_any_case_and_default_to_fahrenheit() {
    assert_eq!(parse_units(None), Ok(Units::Fahrenheit));
    assert_eq!(parse_units(Some("  ")), Ok(Units::Fahrenheit));
    assert_eq!(parse_units(Some("\tCELSIUS ")), Ok(Units::Celsius));
    assert_eq!(parse_units(Some("Fahrenheit")), Ok(Units::Fahrenheit));
    assert_eq!(
        parse_units(Some(" K ")),
        Err(WeatherError::InvalidInput(
            "Unsupported units 'K'. Use 'celsius' or 'fahrenheit'.".to_string()
        ))
    );
}

#[test]
fn conversions_undo_each_other() {
    let there = temperature_conversion(Units::Celsius, Units::Fahrenheit);
    let back = temperature_conversion(Units::Fahrenheit, Units::Celsius);
    assert_eq!(there, Conversion { subtract: 0, multiply: 9, divide: 5, add: 32 });
    assert_eq!(back, Conversion { subtract: 32, multiply: 5, divide: 9, add: 0 });
    let apply =
        |c: Conversion, value: i32| (value - c.subtract) * c.multiply / c.divide + c.add;
    assert_eq!(apply(there, 100), 212);
    assert_eq!(apply(back, 212), 100);
    assert_eq!(apply(there, -40), -40);
}

fn query(location: Option<&str>, units: Option<&str>) -> Result<WeatherQuery, String> {
    Ok(WeatherQuery {
        location: location.map(str::to_string),
        units: units.map(str::to_string),
    })
}

#[test]
fn requests_are_read() {
    assert_eq!(
        parse_query(query(Some("  Den Haag "), Some("Celsius"))),
        Ok(RequestOptions { location: "Den Haag".to_string(), units: Units::Celsius })
    );
    let no_location = Err(WeatherError::InvalidInput(
        "Please provide a location, like 'Denver, CO'.".to_string(),
    ));
    assert_eq!(parse_query(query(None, None)), no_location);
    assert_eq!(parse_query(query(Some(" \n"), Some("kelvin"))), no_location);
    assert_eq!(
        parse_query(query(Some("Oslo"), Some("kelvin"))),
        Err(WeatherError::InvalidInput(
            "Unsupported units 'kelvin'. Use 'celsius' or 'fahrenheit'.".to_string()
        ))
    );
    assert_eq!(
        parse_query(Err("why".to_string())),
        Err(WeatherError::InvalidInput(
            "Invalid input JSON: why. Expected {\"location\": \"Denver, CO\"}.".to_string()
        ))
    );
}

// Addresses

#[test]
fn query_components_keep_unreserved_characters_only() {
    assert_eq!(encode_query_component("AZaz09-._~"), "AZaz09-._~");
    assert_eq!(encode_query_component("&=#?+%/"), "%26%3D%23%3F%2B%25%2F");
    assert_eq!(encode_query_component("東京\0"), "%E6%9D%B1%E4%BA%AC%00");
    assert_eq!(encode_query_component(""), "");
}

#[test]
fn query_components_are_read_back() {
    for text in ["São Paulo & Co", "a%20b", "東京", "🌤️", "\u{7f}\u{80}"] {
        let encoded = encode_query_component(text);
        let mut bytes: Vec<u8> = Vec::new();
        let mut rest = encoded.as_str();
        while !rest.is_empty() {
            if let Some(tail) = rest.strip_prefix('%') {
                bytes.push(u8::from_str_radix(&tail[..2], 16).unwrap());
                rest = &tail[2..];
            } else {
                bytes.push(rest.as_bytes()[0]);
                rest = &rest[1..];
            }
        }
        assert_eq!(bytes, text.as_bytes());
    }
}

#[test]
fn addresses_of_the_services() {
    assert_eq!(
        build_geocode_url("Denver, CO"),
        "https://geocoding-api.open-meteo.com/v1/search?name=Denver%2C%20CO&count=1"
    );
    let place =
        ResolvedLocation { latitude: "39.73915".to_string(), longitude: "-104.9847".to_string() };
    let celsius = "https://api.open-meteo.com/v1/forecast?latitude=39.73915&longitude=-104.9847\
                   &current=temperature_2m,relative_humidity_2m,wind_speed_10m,weather_code\
                   &daily=weather_code,temperature_2m_max,temperature_2m_min\
                   &timezone=auto&forecast_days=3";
    assert_eq!(build_weather_url(&place, Units::Celsius), celsius);
    assert_eq!(
        build_weather_url(&place, Units::Fahrenheit),
        format!("{celsius}&temperature_unit=fahrenheit&wind_speed_unit=mph")
    );
}

#[test]
fn the_first_place_is_taken() {
    let place = |latitude: &str, longitude: &str| GeocodeResult {
        latitude: latitude.to_string(),
        longitude: longitude.to_string(),
    };
    let found = GeocodeResponse { results: Some(vec![place("1", "2"), place("3", "4")]) };
    assert_eq!(
        resolve_location("x", &found),
        Ok(ResolvedLocation { latitude: "1".to_string(), longitude: "2".to_string() })
    );
    let nothing = Err(WeatherError::Api("No weather results found for 'Nowhere'.".to_string()));
    assert_eq!(resolve_location("Nowhere", &GeocodeResponse { results: None }), nothing);
    assert_eq!(resolve_location("Nowhere", &GeocodeResponse { results: Some(vec![]) }), nothing);
}

// Forecast and report

fn daily(dates: &[&str]) -> ApiDailyForecast {
    let n = dates.len();
    ApiDailyForecast {
        time: dates.iter().map(|date| date.to_string()).collect(),
        weather_code: vec![0; n],
        temperature_2m_max: (0..n as i32).map(|i| 20 + i).collect(),
        temperature_2m_min: (0..n as i32).map(|i| 10 + i).collect(),
    }
}

#[test]
fn a_forecast_covers_three_days_and_ignores_later_dates() {
    let days =
        build_forecast(&daily(&["2026-03-09", "2026-03-10", "2026-03-11", "rubbish"])).unwrap();
    assert_eq!(days.len(), FORECAST_DAYS);
    assert_eq!(days[2].label, "Wed");
    assert_eq!((days[2].high, days[2].low), (22, 12));
}

#[test]
fn the_first_unreadable_date_decides_the_message() {
    assert_eq!(
        build_forecast(&daily(&["2026-03-09", "x", "2026-13-01"])),
        Err(WeatherError::Api("Invalid year in forecast date 'x'.".to_string()))
    );
}

#[test]
fn lists_of_different_lengths_are_reported() {
    let mut lists = daily(&["2026-03-09", "2026-03-10"]);
    assert_eq!(forecast_length_warning(&lists), None);
    assert!(!has_mismatched_daily_lengths(&lists, 2));
    lists.weather_code.pop();
    assert!(has_mismatched_daily_lengths(&lists, 1));
    assert_eq!(
        forecast_length_warning(&lists),
        Some(
            "Forecast arrays had mismatched lengths; truncating to 1 entries (time=2, \
             weather_code=1, temperature_2m_max=2, temperature_2m_min=2)."
                .to_string()
        )
    );
    assert_eq!(build_forecast(&lists).unwrap().len(), 1);
}

fn response(dates: &[&str]) -> ForecastResponse {
    ForecastResponse {
        current: ApiCurrentWeather {
            temperature_2m: -3,
            temperature_2m_other_units: 27,
            relative_humidity_2m: 80,
            wind_speed_10m: "9".to_string(),
            weather_code: 73,
        },
        daily: daily(dates),
    }
}

fn oslo() -> RequestOptions {
    RequestOptions { location: "Oslo".to_string(), units: Units::Celsius }
}

const OSLO_REPORT: &str = "🌤️ Weather for Oslo\n\nCurrent: -3°C (27°F), Snow\n\
                           Humidity: 80% | Wind: 9 km/h\n\n📅 3-Day Forecast:\n  \
                           Mon: ☀️ 20°C / 10°C — Clear Sky";

#[test]
fn a_report_is_made_and_shown() {
    let report = fetch_weather(&oslo(), &response(&["2026-03-09"])).unwrap();
    let text = format_report(&report);
    assert_eq!(text, OSLO_REPORT);
    assert_eq!(text.split('\n').count(), 6 + report.forecast.len());
    assert_eq!(temperature_text(-40, Units::Fahrenheit), "-40°F");
    assert_eq!(
        fetch_weather(&oslo(), &response(&[])),
        Err(WeatherError::Api("Weather forecast was missing daily data.".to_string()))
    );
}

// JSON and failures

#[test]
fn json_strings_are_read_back() {
    let texts = ["", "plain", "\"quoted\" \\ back", "tab\t line\n feed\u{c}\u{8}\r", "é 東京 🌤️"];
    for text in texts {
        let written = json_string(text);
        assert_eq!(serde_json::from_str::<String>(&written).unwrap(), text);
    }
    let controls: String = ('\0'..=' ').collect();
    assert_eq!(serde_json::from_str::<String>(&json_string(&controls)).unwrap(), controls);
    assert_eq!(json_string("a\"b\\c\n\u{1f}\u{7f}/"), "\"a\\\"b\\\\c\\n\\u001f\u{7f}/\"");
}

#[test]
fn failures_are_answered_with_their_message() {
    let errors = [
        WeatherError::InvalidInput("say \"please\"".to_string()),
        WeatherError::RequestFailed("line\nfeed".to_string()),
        WeatherError::Api("plain".to_string()),
    ];
    for error in errors {
        let output = error_output(&error);
        let value = serde_json::from_str::<serde_json::Value>(&output).unwrap();
        assert_eq!(value.as_object().unwrap().len(), 1);
        assert_eq!(value.get("error").unwrap().as_str().unwrap(), error.to_string());
        let message = error.to_string();
        let given = answer(Err(error));
        assert_eq!(given.output, output);
        assert_eq!(given.error_log, Some(message));
    }
    let given = answer(Ok("report".to_string()));
    assert_eq!(given.output, "report");
    assert_eq!(given.error_log, None);
}

// The host

#[test]
fn host_texts_end_at_the_zero_byte() {
    assert_eq!(read_host_string(None), "");
    assert_eq!(read_host_string(Some(&[])), "");
    assert_eq!(read_host_string(Some("Oslo °\0rest".as_bytes())), "Oslo °");
    assert_eq!(read_host_string(Some(b"\0abc")), "");
    assert_eq!(host_string_len(b"abc\0def"), 3);
    assert_eq!(host_string_len(b"abc"), 3);
}

#[test]
fn host_texts_are_read_up_to_a_limit() {
    let long = vec![b'x'; MAX_HOST_STRING_LEN + 10];
    assert_eq!(MAX_HOST_STRING_LEN, 16384);
    assert_eq!(read_host_string(Some(&long)).len(), MAX_HOST_STRING_LEN);
    let mut full = vec![b'y'; MAX_HOST_STRING_LEN];
    full.push(0);
    assert_eq!(read_host_string(Some(&full)), "y".repeat(MAX_HOST_STRING_LEN));
}

#[test]
fn host_texts_that_are_not_utf8_are_mended() {
    assert_eq!(read_host_string(Some(&[b'a', 0xff, b'b', 0])), "a\u{fffd}b");
    assert_eq!(read_host_string(Some(&[0xe6, 0x9d, 0])), "\u{fffd}");
}

#[test]
fn web_requests_and_their_answers() {
    let request = http_get_request("https://example.org".to_string());
    assert_eq!(request.method, "GET");
    assert_eq!(request.url, "https://example.org");
    assert_eq!(request.headers, "{}");
    assert_eq!(request.body, "");
    assert_eq!(require_response_body("x".to_string()), Ok("x".to_string()));
    assert_eq!(parse_json_response::<u8>(Ok(7)), Ok(7));
    assert_eq!(
        parse_json_response::<u8>(Err("why".to_string())),
        Err(WeatherError::Api("Failed to parse weather data: why".to_string()))
    );
}

// A whole request

fn failed(error: WeatherError) -> Action {
    Action::Finish { warning: None, result: Err(error) }
}

#[test]
fn a_request_is_served_step_by_step() {
    let input = "{\"location\": \"Oslo\", \"units\": \"celsius\"}".to_string();
    assert_eq!(execute(Event::Input(input.clone())), Action::ReadQuery(input));

    let geocode = "https://geocoding-api.open-meteo.com/v1/search?name=Oslo&count=1".to_string();
    assert_eq!(
        execute(Event::QueryRead(query(Some("Oslo"), Some("celsius")))),
        Action::FetchPlaces { options: oslo(), request: http_get_request(geocode) }
    );
    assert_eq!(
        execute(Event::PlacesFetched { options: oslo(), body: "{}".to_string() }),
        Action::ReadPlaces { options: oslo(), body: "{}".to_string() }
    );
    let place =
        GeocodeResult { latitude: "59.91".to_string(), longitude: "10.75".to_string() };
    let forecast = build_weather_url(
        &ResolvedLocation { latitude: "59.91".to_string(), longitude: "10.75".to_string() },
        Units::Celsius,
    );
    assert_eq!(
        execute(Event::PlacesRead {
            options: oslo(),
            places: Ok(GeocodeResponse { results: Some(vec![place]) }),
        }),
        Action::FetchForecast { options: oslo(), request: http_get_request(forecast) }
    );
    assert_eq!(
        execute(Event::ForecastFetched { options: oslo(), body: "{}".to_string() }),
        Action::ReadForecast {
            options: oslo(),
            body: "{}".to_string(),
            conversion: temperature_conversion(Units::Celsius, Units::Fahrenheit),
        }
    );
    assert_eq!(
        execute(Event::ForecastRead {
            options: oslo(),
            forecast: Ok(response(&["2026-03-09"])),
        }),
        Action::Finish { warning: None, result: Ok(OSLO_REPORT.to_string()) }
    );
}

#[test]
fn a_request_ends_with_its_first_failure() {
    assert_eq!(
        execute(Event::QueryRead(query(None, None))),
        failed(WeatherError::InvalidInput(
            "Please provide a location, like 'Denver, CO'.".to_string()
        ))
    );
    let no_answer = WeatherError::RequestFailed("Weather service request failed.".to_string());
    assert_eq!(
        execute(Event::PlacesFetched { options: oslo(), body: String::new() }),
        failed(no_answer.clone())
    );
    assert_eq!(
        execute(Event::ForecastFetched { options: oslo(), body: String::new() }),
        failed(no_answer)
    );
    assert_eq!(
        execute(Event::PlacesRead {
            options: oslo(),
            places: Ok(GeocodeResponse { results: None }),
        }),
        failed(WeatherError::Api("No weather results found for 'Oslo'.".to_string()))
    );
    let unread = WeatherError::Api("Failed to parse weather data: why".to_string());
    assert_eq!(
        execute(Event::PlacesRead { options: oslo(), places: Err("why".to_string()) }),
        failed(unread.clone())
    );
    assert_eq!(
        execute(Event::ForecastRead { options: oslo(), forecast: Err("why".to_string()) }),
        failed(unread)
    );
}

#[test]
fn a_warning_is_given_even_without_a_report() {
    let mut forecast = response(&["2026-03-09"]);
    forecast.daily.weather_code.clear();
    assert_eq!(
        execute(Event::ForecastRead { options: oslo(), forecast: Ok(forecast) }),
        Action::Finish {
            warning: Some(
                "Forecast arrays had mismatched lengths; truncating to 0 entries (time=1, \
                 weather_code=0, temperature_2m_max=1, temperature_2m_min=1)."
                    .to_string()
            ),
            result: Err(WeatherError::Api(
                "Weather forecast was missing daily data.".to_string()
            )),
        }
    );
}
