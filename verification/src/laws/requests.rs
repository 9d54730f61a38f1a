//! What the user asks for, and what the services are asked.

use vstd::prelude::*;
use vstd::utf8::*;

use crate::error::error_object;
use crate::error::error_object_holds_the_message;
use crate::error::Failure;
use crate::error::WeatherError;
use crate::geocode::coordinates_of;
use crate::geocode::Coordinates;
use crate::geocode::GeocodeResponse;
use crate::geocode::ResolvedLocation;
use crate::host::before_zero;
use crate::host::get_of;
use crate::host::host_bytes;
use crate::host::request_failure;
use crate::host::unreadable_response;
use crate::host::HttpRequest;
use crate::host::EMPTY_JSON;
use crate::host::ERROR_LEVEL;
use crate::host::INFO_LEVEL;
use crate::host::START_MESSAGE;
use crate::host::WARN_LEVEL;
use crate::json::read_string;
use crate::query::parsed_request;
use crate::query::Request;
use crate::query::RequestOptions;
use crate::query::WeatherQuery;
use crate::text::ascii_lowercase;
use crate::text::trimmed;
use crate::text::trimmed_is_the_inner_stretch;
use crate::text::white_space;
use crate::units::conversion_between;
use crate::units::requested_units;
use crate::units::Units;
use crate::url::encoded_byte;
use crate::url::forecast_url;
use crate::url::geocode_url;
use crate::url::percent_encoded;

verus! {

// ---------------------------------------------------------------------------
// Units
// ---------------------------------------------------------------------------

/// Celsius is served exactly where its name is given, in any case and with any white space around
/// it; Fahrenheit where its name is given or nothing at all. Any other name is refused, and the
/// message holds it without the white space around it.
pub proof fn units_are_chosen_by_name(text: Seq<char>)
    ensures
        requested_units(None) == Ok::<Units, Failure>(Units::Fahrenheit),
        requested_units(Some(text)) == Ok::<Units, Failure>(Units::Celsius) <==> ascii_lowercase(
            trimmed(text),
        ) == "celsius"@,
        requested_units(Some(text)) == Ok::<Units, Failure>(Units::Fahrenheit) <==> ascii_lowercase(
            trimmed(text),
        ) == "fahrenheit"@ || trimmed(text).len() == 0,
        requested_units(Some(text)) matches Err(failure) ==> failure == Failure::InvalidInput(
            "Unsupported units '"@ + trimmed(text) + "'. Use 'celsius' or 'fahrenheit'."@,
        ),
{
    reveal_strlit("celsius");
    reveal_strlit("fahrenheit");
    assert("celsius"@.len() == 7 && "fahrenheit"@.len() == 10);
    assert(ascii_lowercase(trimmed(text)).len() == trimmed(text).len());
}

/// Each of the two units has its symbol, its unit of wind speed and the other units.
pub proof fn units_have_their_signs()
    ensures
        Units::Celsius.symbol_text() == "°C"@ && Units::Celsius.wind_unit_text() == "km/h"@,
        Units::Fahrenheit.symbol_text() == "°F"@ && Units::Fahrenheit.wind_unit_text() == "mph"@,
        Units::Celsius.opposite() == Units::Fahrenheit,
        Units::Fahrenheit.opposite() == Units::Celsius,
{
}

/// A conversion relates the temperatures that the two scales have for the same heat, given in
/// parts of a degree of which `scale` make one: a nought of Celsius is 32 degrees Fahrenheit, and
/// five degrees Celsius are nine degrees Fahrenheit. It never divides by nought.
pub proof fn conversions_relate_the_scales(from: Units, to: Units, one: int, other: int, scale: int)
    ensures
        ({
            let conversion = conversion_between(from, to);
            let reached = (other - conversion.add * scale) * conversion.divide == (one
                - conversion.subtract * scale) * conversion.multiply;
            let celsius = if from == Units::Celsius {
                one
            } else {
                other
            };
            let fahrenheit = if from == Units::Celsius {
                other
            } else {
                one
            };
            &&& conversion.divide > 0
            &&& conversion.takes(one, other, scale) == reached
            &&& from == to ==> (reached <==> one == other)
            &&& from != to ==> (reached <==> 5 * (fahrenheit - 32 * scale) == 9 * celsius)
        }),
{
    assert((other - 0 * scale) * 1 == other) by (nonlinear_arith);
    assert((one - 0 * scale) * 1 == one) by (nonlinear_arith);
}

// ---------------------------------------------------------------------------
// The request of the user
// ---------------------------------------------------------------------------

/// The location of a request that is served is the whole text that the user gave, less white
/// space at its ends, and the units are those that the user named.
pub proof fn location_is_what_the_user_gave(parsed: Result<WeatherQuery, String>) -> (bounds: (
    int,
    int,
))
    requires
        parsed_request(parsed) is Ok,
    ensures
        parsed is Ok && parsed->Ok_0.location is Some,
        ({
            let text = parsed->Ok_0.location->Some_0@;
            let request = parsed_request(parsed)->Ok_0;
            &&& 0 <= bounds.0 < bounds.1 <= text.len()
            &&& request.location == text.subrange(bounds.0, bounds.1)
            &&& forall|i: int|
                0 <= i < bounds.0 || bounds.1 <= i < text.len() ==> white_space(#[trigger] text[i])
            &&& !white_space(text[bounds.0]) && !white_space(text[bounds.1 - 1])
            &&& match parsed->Ok_0.units {
                None => request.units == Units::Fahrenheit,
                Some(name) => requested_units(Some(name@)) == Ok::<Units, Failure>(request.units),
            }
        }),
{
    let text = parsed->Ok_0.location->Some_0@;
    let bounds = trimmed_is_the_inner_stretch(text);
    assert(parsed_request(parsed)->Ok_0.location == trimmed(text));
    bounds
}

/// Whoever names a place is served, unless the units are refused; the failure is then the one for
/// the units. Input that is no request object is refused with the reason.
pub proof fn whoever_names_a_place_is_served(query: WeatherQuery, place: int, reason: String)
    requires
        query.location is Some,
        0 <= place < query.location->Some_0@.len(),
        !white_space(query.location->Some_0@[place]),
    ensures
        parsed_request(Ok(query)) is Ok <==> query.units is None || requested_units(
            Some(query.units->Some_0@),
        ) is Ok,
        parsed_request(Ok(query)) matches Err(failure) ==> requested_units(
            Some(query.units->Some_0@),
        ) == Err::<Units, Failure>(failure),
        parsed_request(Err(reason)) == Err::<Request, Failure>(
            Failure::InvalidInput(
                "Invalid input JSON: "@ + reason@
                    + ". Expected {\"location\": \"Denver, CO\"}."@,
            ),
        ),
{
    let text = query.location->Some_0@;
    let bounds = trimmed_is_the_inner_stretch(text);
    assert(text[place] == text[place]);
    assert(bounds.0 <= place < bounds.1);
    assert(trimmed(text).len() > 0);
}

/// A request without a place, or with a blank one, is refused, whatever else it holds.
pub proof fn nobody_else_is_served(query: WeatherQuery)
    requires
        query.location matches Some(text) ==> forall|i: int|
            0 <= i < text@.len() ==> white_space(#[trigger] text@[i]),
    ensures
        parsed_request(Ok(query)) == Err::<Request, Failure>(
            Failure::InvalidInput("Please provide a location, like 'Denver, CO'."@),
        ),
{
    if let Some(text) = query.location {
        let bounds = trimmed_is_the_inner_stretch(text@);
        if bounds.0 < bounds.1 {
            assert(white_space(text@[bounds.0]));
        }
    }
}

// ---------------------------------------------------------------------------
// Addresses
// ---------------------------------------------------------------------------

/// Bytes are percent-encoded one by one: letters, digits and the characters `-`, `.`, `_` and `~`
/// as themselves, every other byte as a percent sign and its two hexadecimal digits.
pub proof fn bytes_are_encoded_one_by_one(bytes: Seq<u8>, byte: u8)
    ensures
        percent_encoded(seq![]) == Seq::<char>::empty(),
        percent_encoded(bytes.push(byte)) == percent_encoded(bytes) + percent_encoded(seq![byte]),
        ({
            let c = byte as char;
            let plain = ('a' <= c <= 'z') || ('A' <= c <= 'Z') || ('0' <= c <= '9')
                || "-._~"@.contains(c);
            percent_encoded(seq![byte]) == (if plain {
                seq![c]
            } else {
                seq![
                    '%',
                    "0123456789ABCDEF"@[byte as int / 16],
                    "0123456789ABCDEF"@[byte as int % 16],
                ]
            })
        }),
    decreases bytes.len(),
{
    reveal_strlit("-._~");
    reveal_strlit("0123456789ABCDEF");
    let marks = "-._~"@;
    assert(marks[0] == '-' && marks[1] == '.' && marks[2] == '_' && marks[3] == '~');
    let single = seq![byte];
    assert(single.drop_first() == Seq::<u8>::empty());
    assert(percent_encoded(single) == encoded_byte(byte) + percent_encoded(single.drop_first()));
    assert(percent_encoded(single) == encoded_byte(byte));
    if bytes.len() > 0 {
        bytes_are_encoded_one_by_one(bytes.drop_first(), byte);
        let longer = bytes.push(byte);
        assert(longer.drop_first() == bytes.drop_first().push(byte));
        assert(longer.first() == bytes.first());
        assert(percent_encoded(longer) == percent_encoded(bytes) + percent_encoded(single));
    } else {
        assert(bytes.push(byte) == single);
        assert(percent_encoded(bytes) == Seq::<char>::empty());
    }
}

/// The coordinates of a place are asked for with the bytes of its name, percent-encoded, and for
/// one result.
pub proof fn the_address_names_the_place(location: Seq<char>)
    ensures
        geocode_url(location) == "https://geocoding-api.open-meteo.com/v1/search?name="@
            + percent_encoded(encode_utf8(location)) + "&count=1"@,
{
}

/// A forecast is asked for with the latitude and the longitude of the place, in this order, and
/// for three days. The address for Fahrenheit is the one for Celsius with the units behind it.
pub proof fn the_address_holds_the_coordinates(place: Coordinates)
    ensures
        forecast_url(place, Units::Celsius) == "https://api.open-meteo.com/v1/forecast?latitude="@
            + place.latitude + "&longitude="@ + place.longitude
            + "&current=temperature_2m,relative_humidity_2m,wind_speed_10m,weather_code&daily=weather_code,temperature_2m_max,temperature_2m_min&timezone=auto&forecast_days=3"@,
        forecast_url(place, Units::Fahrenheit) == forecast_url(place, Units::Celsius)
            + "&temperature_unit=fahrenheit&wind_speed_unit=mph"@,
{
}

/// The first place that was found counts, whatever its name was and whatever was found besides.
/// Where nothing was found the failure holds the name.
pub proof fn the_first_place_counts(location: Seq<char>, response: GeocodeResponse)
    ensures
        (response.results is None || response.results->Some_0@.len() == 0) ==> coordinates_of(
            location,
            response,
        ) == Err::<Coordinates, Failure>(
            Failure::Api("No weather results found for '"@ + location + "'."@),
        ),
        response.results is Some && response.results->Some_0@.len() > 0 ==> {
            let first = response.results->Some_0@.first();
            &&& coordinates_of(location, response) is Ok
            &&& coordinates_of(location, response)->Ok_0.latitude == first.latitude@
            &&& coordinates_of(location, response)->Ok_0.longitude == first.longitude@
        },
{
}

// ---------------------------------------------------------------------------
// What passes between the skill and its host
// ---------------------------------------------------------------------------

/// The bytes of a text of the host are the first ones in memory. There is no zero byte among
/// them, and they go on until a zero byte, until 16 KB or until the end of memory.
pub proof fn host_text_ends_at_a_zero_byte(memory: Seq<u8>)
    ensures
        ({
            let n = host_bytes(memory).len() as int;
            &&& n <= memory.len() && n <= 16384
            &&& host_bytes(memory) == memory.take(n)
            &&& forall|i: int| 0 <= i < n ==> #[trigger] memory[i] != 0
            &&& n == memory.len() || n == 16384 || memory[n] == 0
        }),
{
    let limit = if memory.len() <= 16384 {
        memory.len() as int
    } else {
        16384int
    };
    let window = memory.take(limit);
    lemma_before_zero(window);
    let n = host_bytes(memory).len() as int;
    assert(host_bytes(memory) == before_zero(window));
    assert(window.take(n) == memory.take(n));
    assert forall|i: int| 0 <= i < n implies #[trigger] memory[i] != 0 by {
        assert(window[i] == memory[i]);
    }
}

proof fn lemma_before_zero(bytes: Seq<u8>)
    ensures
        ({
            let n = before_zero(bytes).len() as int;
            &&& n <= bytes.len()
            &&& before_zero(bytes) == bytes.take(n)
            &&& forall|i: int| 0 <= i < n ==> #[trigger] bytes[i] != 0
            &&& n == bytes.len() || bytes[n] == 0
        }),
    decreases bytes.len(),
{
    if bytes.len() > 0 && bytes.first() != 0 {
        let rest = bytes.drop_first();
        lemma_before_zero(rest);
        let n = before_zero(bytes).len() as int;
        assert(bytes.take(n) == seq![bytes.first()] + rest.take(n - 1));
        assert forall|i: int| 0 <= i < n implies #[trigger] bytes[i] != 0 by {
            if i > 0 {
                assert(rest[i - 1] == bytes[i]);
            }
        }
    }
}

/// Progress, oddities and failures are logged at the levels 2, 3 and 4. The first line that is
/// logged says that the skill starts.
pub proof fn log_levels_rise_with_the_trouble()
    ensures
        INFO_LEVEL == 2 && WARN_LEVEL == 3 && ERROR_LEVEL == 4,
        START_MESSAGE@ == "Weather skill starting"@,
        EMPTY_JSON@ == "{}"@,
{
}

/// A web request fetches its address: it has no headers and nothing in its body. A request that
/// brought nothing, and an answer that cannot be read, each have their failure.
pub proof fn web_requests_fetch_their_address(url: Seq<char>, reason: Seq<char>)
    ensures
        get_of(url).method == "GET"@,
        get_of(url).url == url,
        get_of(url).headers == "{}"@,
        get_of(url).body.len() == 0,
        request_failure() == Failure::RequestFailed("Weather service request failed."@),
        unreadable_response(reason) == Failure::Api("Failed to parse weather data: "@ + reason),
{
}

/// The message of a failure is the text that it carries, and the answer to it is a JSON object
/// whose one member holds that text.
pub proof fn failures_carry_their_message(message: String) -> (value: Seq<char>)
    ensures
        WeatherError::InvalidInput(message)@ == Failure::InvalidInput(message@),
        WeatherError::RequestFailed(message)@ == Failure::RequestFailed(message@),
        WeatherError::Api(message)@ == Failure::Api(message@),
        Failure::InvalidInput(message@).message() == message@,
        Failure::RequestFailed(message@).message() == message@,
        Failure::Api(message@).message() == message@,
        error_object(message@) == "{\"error\": "@ + value + "}"@,
        read_string(value) == Some(message@),
{
    error_object_holds_the_message(message@);
    reveal_strlit("}");
    let output = error_object(message@);
    let head = "{\"error\": "@;
    let value = output.subrange(head.len() as int, output.len() - 1);
    assert(output == head + value + "}"@);
    value
}

/// A model holds the texts of the fields.
pub proof fn models_hold_the_fields(
    options: RequestOptions,
    place: ResolvedLocation,
    request: HttpRequest,
)
    ensures
        options@.location == options.location@ && options@.units == options.units,
        place@.latitude == place.latitude@ && place@.longitude == place.longitude@,
        request@.method == request.method@ && request@.url == request.url@,
        request@.headers == request.headers@ && request@.body == request.body@,
{
}

} // verus!
