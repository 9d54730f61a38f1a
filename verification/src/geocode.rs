//! From the name of a place to its coordinates.

use vstd::prelude::*;
use vstd::string::*;

use crate::error::Failure;
use crate::error::WeatherError;

verus! {

/// The places that the geocoding service found, best first. Coordinates are carried as decimal
/// text, the form in which they go into the next request.
#[derive(Debug, Clone, PartialEq, Eq)]
pub struct GeocodeResponse {
    pub results: Option<Vec<GeocodeResult>>,
}

/// One place that the geocoding service found.
#[derive(Debug, Clone, PartialEq, Eq)]
pub struct GeocodeResult {
    pub latitude: String,
    pub longitude: String,
}

/// The coordinates of the place that a report is about.
#[derive(Debug, Clone, PartialEq, Eq)]
pub struct ResolvedLocation {
    pub latitude: String,
    pub longitude: String,
}

/// The model of [`ResolvedLocation`].
pub struct Coordinates {
    pub latitude: Seq<char>,
    pub longitude: Seq<char>,
}

impl View for ResolvedLocation {
    type V = Coordinates;

    open spec fn view(&self) -> Coordinates {
        Coordinates { latitude: self.latitude@, longitude: self.longitude@ }
    }
}

/// The coordinates of the first place found; a failure where there is none.
pub open spec fn coordinates_of(location: Seq<char>, response: GeocodeResponse) -> Result<
    Coordinates,
    Failure,
> {
    match response.results {
        Some(results) if results@.len() > 0 => Ok(
            Coordinates { latitude: results@[0].latitude@, longitude: results@[0].longitude@ },
        ),
        _ => Err(Failure::Api("No weather results found for '"@ + location + "'."@)),
    }
}

/// The coordinates of the first place that the geocoding service found for `location`.
pub fn resolve_location(location: &str, response: &GeocodeResponse) -> (result: Result<
    ResolvedLocation,
    WeatherError,
>)
    ensures
        match result {
            Ok(place) => coordinates_of(location@, *response) == Ok::<Coordinates, Failure>(
                place@,
            ),
            Err(error) => coordinates_of(location@, *response) == Err::<Coordinates, Failure>(
                error@,
            ),
        },
{
    if let Some(results) = &response.results {
        if results.len() > 0 {
            return Ok(
                ResolvedLocation {
                    latitude: results[0].latitude.clone(),
                    longitude: results[0].longitude.clone(),
                },
            );
        }
    }
    let mut message = "No weather results found for '".to_string();
    message.append(location);
    message.append("'.");
    Err(WeatherError::Api(message))
}

} // verus!
