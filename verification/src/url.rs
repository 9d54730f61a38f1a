//! The addresses of the two services, and percent-encoding.

use vstd::prelude::*;
use vstd::string::*;
use vstd::utf8::*;

use crate::geocode::Coordinates;
use crate::geocode::ResolvedLocation;
use crate::units::Units;

verus! {

// ---------------------------------------------------------------------------
// Percent-encoding
// ---------------------------------------------------------------------------

/// The characters that stand for themselves in a query component: ASCII letters and digits, the
/// hyphen, the full stop, the underscore and the tilde.
pub open spec fn unreserved(c: char) -> bool {
    ||| 'a' <= c <= 'z'
    ||| 'A' <= c <= 'Z'
    ||| '0' <= c <= '9'
    ||| c == '-'
    ||| c == '.'
    ||| c == '_'
    ||| c == '~'
}

/// The upper-case hexadecimal digit of `value`.
pub open spec fn upper_hex_digit(value: u8) -> char
    recommends
        value < 16,
{
    if value < 10 {
        ('0' as u8 + value) as char
    } else {
        ('A' as u8 + value - 10) as char
    }
}

/// How a query component writes a byte: as itself where it is unreserved, else as a percent sign
/// and two hexadecimal digits.
pub open spec fn encoded_byte(byte: u8) -> Seq<char> {
    if unreserved(byte as char) {
        seq![byte as char]
    } else {
        seq!['%', upper_hex_digit(byte / 16), upper_hex_digit(byte % 16)]
    }
}

/// `bytes`, each written as a query component writes it.
pub open spec fn percent_encoded(bytes: Seq<u8>) -> Seq<char>
    decreases bytes.len(),
{
    if bytes.len() == 0 {
        seq![]
    } else {
        encoded_byte(bytes.first()) + percent_encoded(bytes.drop_first())
    }
}

fn is_unreserved(c: char) -> (found: bool)
    ensures
        found == unreserved(c),
{
    ('a' <= c && c <= 'z') || ('A' <= c && c <= 'Z') || ('0' <= c && c <= '9') || c == '-' || c
        == '.' || c == '_' || c == '~'
}

fn hex_character(value: u8) -> (c: char)
    requires
        value < 16,
    ensures
        c == upper_hex_digit(value),
{
    if value < 10 {
        ('0' as u8 + value) as char
    } else {
        ('A' as u8 + (value - 10)) as char
    }
}

/// `value` as a component of a query: its UTF-8 bytes, percent-encoded.
pub fn encode_query_component(value: &str) -> (encoded: String)
    ensures
        encoded@ == percent_encoded(encode_utf8(value@)),
{
    let bytes = value.as_bytes();
    let mut encoded = String::new();
    assert(bytes@.skip(0) == bytes@);
    for i in 0..bytes.len()
        invariant
            percent_encoded(bytes@) == encoded@ + percent_encoded(bytes@.skip(i as int)),
    {
        let byte: u8 = bytes[i];
        assert(bytes@.skip(i as int).drop_first() == bytes@.skip(i + 1));
        let ghost before = encoded@;
        if is_unreserved(byte as char) {
            encoded.push(byte as char);
        } else {
            encoded.push('%');
            encoded.push(hex_character(byte / 16));
            encoded.push(hex_character(byte % 16));
        }
        assert(encoded@ == before + encoded_byte(byte));
    }
    assert(bytes@.skip(bytes.len() as int) == Seq::<u8>::empty());
    encoded
}

/// The value of an upper-case hexadecimal digit.
pub open spec fn upper_hex_value(c: char) -> Option<int> {
    if '0' <= c <= '9' {
        Some(c as int - '0' as int)
    } else if 'A' <= c <= 'F' {
        Some(c as int - 'A' as int + 10)
    } else {
        None
    }
}

/// A query component read back: a percent sign and two hexadecimal digits stand for a byte, and
/// an unreserved character for itself. Nothing else has a reading.
pub open spec fn percent_decoded(text: Seq<char>) -> Option<Seq<u8>>
    decreases text.len(),
{
    if text.len() == 0 {
        Some(seq![])
    } else if text[0] == '%' {
        if text.len() < 3 {
            None
        } else {
            match (upper_hex_value(text[1]), upper_hex_value(text[2]), percent_decoded(
                text.skip(3),
            )) {
                (Some(high), Some(low), Some(rest)) => Some(seq![(16 * high + low) as u8] + rest),
                _ => None,
            }
        }
    } else if unreserved(text[0]) {
        match percent_decoded(text.drop_first()) {
            Some(rest) => Some(seq![text[0] as u8] + rest),
            None => None,
        }
    } else {
        None
    }
}

/// What is percent-encoded is read back unchanged.
pub proof fn percent_encoding_is_read_back(bytes: Seq<u8>)
    ensures
        percent_decoded(percent_encoded(bytes)) == Some(bytes),
    decreases bytes.len(),
{
    if bytes.len() == 0 {
        assert(percent_encoded(bytes) == Seq::<char>::empty());
    } else {
        percent_encoding_is_read_back(bytes.drop_first());
        lemma_encoded_byte_is_read_back(bytes.first(), percent_encoded(bytes.drop_first()));
        assert(bytes == seq![bytes.first()] + bytes.drop_first());
    }
}

proof fn lemma_encoded_byte_is_read_back(byte: u8, rest: Seq<char>)
    requires
        percent_decoded(rest) is Some,
    ensures
        percent_decoded(encoded_byte(byte) + rest) == Some(
            seq![byte] + percent_decoded(rest)->Some_0,
        ),
{
    let whole = encoded_byte(byte) + rest;
    if unreserved(byte as char) {
        assert(whole[0] == byte as char);
        assert(whole.drop_first() == rest);
    } else {
        assert(whole.skip(3) == rest);
        assert(upper_hex_value(whole[1]) == Some((byte / 16) as int));
        assert(upper_hex_value(whole[2]) == Some((byte % 16) as int));
    }
}

/// Whether a character can stand in a query component: an unreserved character or a percent sign.
pub open spec fn component_char(c: char) -> bool {
    c == '%' || unreserved(c)
}

/// A percent-encoded text holds nothing but unreserved characters and percent signs. It cannot
/// end the component that it stands in, nor the query.
pub proof fn percent_encoding_stays_in_its_component(bytes: Seq<u8>)
    ensures
        forall|i: int|
            0 <= i < percent_encoded(bytes).len() ==> component_char(
                #[trigger] percent_encoded(bytes)[i],
            ),
    decreases bytes.len(),
{
    if bytes.len() > 0 {
        let head = encoded_byte(bytes.first());
        let tail = percent_encoded(bytes.drop_first());
        percent_encoding_stays_in_its_component(bytes.drop_first());
        lemma_encoded_byte_chars(bytes.first());
        assert forall|i: int| 0 <= i < percent_encoded(bytes).len() implies component_char(
            #[trigger] percent_encoded(bytes)[i],
        ) by {
            if i < head.len() {
                assert(percent_encoded(bytes)[i] == head[i]);
            } else {
                assert(percent_encoded(bytes)[i] == tail[i - head.len()]);
            }
        }
    }
}

proof fn lemma_encoded_byte_chars(byte: u8)
    ensures
        forall|i: int|
            0 <= i < encoded_byte(byte).len() ==> component_char(#[trigger] encoded_byte(byte)[i]),
{
}

// ---------------------------------------------------------------------------
// The addresses
// ---------------------------------------------------------------------------

/// What stands before the name of the place in a request for coordinates.
pub const GEOCODE_PREFIX: &'static str = "https://geocoding-api.open-meteo.com/v1/search?name=";

/// What stands behind the name of the place: one result is enough.
pub const GEOCODE_SUFFIX: &'static str = "&count=1";

/// What stands before the latitude in a request for a forecast.
pub const FORECAST_PREFIX: &'static str = "https://api.open-meteo.com/v1/forecast?latitude=";

/// What a request for a forecast asks for, whatever the units.
pub const FORECAST_FIELDS: &'static str = "&current=temperature_2m,relative_humidity_2m,wind_speed_10m,weather_code\
&daily=weather_code,temperature_2m_max,temperature_2m_min\
&timezone=auto&forecast_days=3";

/// What a request for a forecast adds where it is to be in Fahrenheit.
pub const FAHRENHEIT_FIELDS: &'static str = "&temperature_unit=fahrenheit&wind_speed_unit=mph";

/// The address that gives the coordinates of `location`.
pub open spec fn geocode_url(location: Seq<char>) -> Seq<char> {
    GEOCODE_PREFIX@ + percent_encoded(encode_utf8(location)) + GEOCODE_SUFFIX@
}

/// The address that gives the forecast for a place. Celsius and kilometres per hour are what the
/// service gives where nothing is asked for.
pub open spec fn forecast_url(place: Coordinates, units: Units) -> Seq<char> {
    let url = FORECAST_PREFIX@ + place.latitude + "&longitude="@ + place.longitude
        + FORECAST_FIELDS@;
    match units {
        Units::Celsius => url,
        Units::Fahrenheit => url + FAHRENHEIT_FIELDS@,
    }
}

/// The address that gives the coordinates of `location`.
pub fn build_geocode_url(location: &str) -> (url: String)
    ensures
        url@ == geocode_url(location@),
{
    let mut url = GEOCODE_PREFIX.to_string();
    url.append(encode_query_component(location).as_str());
    url.append(GEOCODE_SUFFIX);
    url
}

/// The address that gives the forecast for a place, in the given units.
pub fn build_weather_url(location: &ResolvedLocation, units: Units) -> (url: String)
    ensures
        url@ == forecast_url(location@, units),
{
    let mut url = FORECAST_PREFIX.to_string();
    url.append(location.latitude.as_str());
    url.append("&longitude=");
    url.append(location.longitude.as_str());
    url.append(FORECAST_FIELDS);
    if matches!(units, Units::Fahrenheit) {
        url.append(FAHRENHEIT_FIELDS);
    }
    url
}

/// Whatever the user calls the place, the geocoding service is asked for exactly that name: what
/// stands between the fixed ends of the address is one query component, and reading it gives the
/// UTF-8 bytes of the name.
pub proof fn geocode_url_holds_the_location(location: Seq<char>)
    ensures
        ({
            let url = geocode_url(location);
            let name = url.subrange(
                GEOCODE_PREFIX@.len() as int,
                url.len() - GEOCODE_SUFFIX@.len(),
            );
            &&& url == GEOCODE_PREFIX@ + name + GEOCODE_SUFFIX@
            &&& percent_decoded(name) == Some(encode_utf8(location))
            &&& forall|i: int| 0 <= i < name.len() ==> component_char(#[trigger] name[i])
        }),
{
    let bytes = encode_utf8(location);
    let url = geocode_url(location);
    let name = url.subrange(GEOCODE_PREFIX@.len() as int, url.len() - GEOCODE_SUFFIX@.len());
    assert(name == percent_encoded(bytes));
    percent_encoding_is_read_back(bytes);
    percent_encoding_stays_in_its_component(bytes);
}

/// Different names are asked for at different addresses.
pub proof fn geocode_urls_tell_locations_apart(one: Seq<char>, other: Seq<char>)
    requires
        geocode_url(one) == geocode_url(other),
    ensures
        one == other,
{
    geocode_url_holds_the_location(one);
    geocode_url_holds_the_location(other);
    encode_utf8_decode_utf8(one);
    encode_utf8_decode_utf8(other);
}

} // verus!
