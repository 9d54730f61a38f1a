//! What the user asks for.

use vstd::prelude::*;
use vstd::string::*;

use crate::error::Failure;
use crate::error::WeatherError;
use crate::text::blank_text_is_trimmed_to_nothing;
use crate::text::optional_string;
use crate::text::trim;
use crate::text::trimmed;
use crate::text::trimmed_is_the_inner_stretch;
use crate::text::white_space;
use crate::units::parse_units;
use crate::units::requested_units;
use crate::units::Units;

verus! {

/// The members of the request object that the skill reads; either may be absent.
#[derive(Debug, Clone, PartialEq, Eq)]
pub struct WeatherQuery {
    pub location: Option<String>,
    pub units: Option<String>,
}

/// A request that can be served: a location that is not blank, and the units of the report.
#[derive(Debug, Clone, PartialEq, Eq)]
pub struct RequestOptions {
    pub location: String,
    pub units: Units,
}

/// The model of [`RequestOptions`].
pub struct Request {
    pub location: Seq<char>,
    pub units: Units,
}

impl View for RequestOptions {
    type V = Request;

    open spec fn view(&self) -> Request {
        Request { location: self.location@, units: self.units }
    }
}

/// The failure for an input that is not a request object; `reason` is what the JSON parser says.
pub open spec fn malformed_input(reason: Seq<char>) -> Failure {
    Failure::InvalidInput(
        "Invalid input JSON: "@ + reason + ". Expected {\"location\": \"Denver, CO\"}."@,
    )
}

/// What a request object asks for. The location is taken without white space around it and must
/// not be blank; it is looked at before the units.
pub open spec fn request_of(query: WeatherQuery) -> Result<Request, Failure> {
    let location = match query.location {
        Some(text) => trimmed(text@),
        None => seq![],
    };
    if location.len() == 0 {
        Err(Failure::InvalidInput("Please provide a location, like 'Denver, CO'."@))
    } else {
        match requested_units(optional_string(query.units)) {
            Ok(units) => Ok(Request { location, units }),
            Err(failure) => Err(failure),
        }
    }
}

/// What the input asks for, given what the JSON parser made of it: the request object, or the
/// reason why the input is none.
pub open spec fn parsed_request(parsed: Result<WeatherQuery, String>) -> Result<Request, Failure> {
    match parsed {
        Ok(query) => request_of(query),
        Err(reason) => Err(malformed_input(reason@)),
    }
}

/// What the input asks for, given what the JSON parser made of it.
pub fn parse_query(parsed: Result<WeatherQuery, String>) -> (result: Result<
    RequestOptions,
    WeatherError,
>)
    ensures
        match result {
            Ok(options) => parsed_request(parsed) == Ok::<Request, Failure>(options@),
            Err(error) => parsed_request(parsed) == Err::<Request, Failure>(error@),
        },
{
    let query = match parsed {
        Ok(query) => query,
        Err(reason) => {
            let mut message = "Invalid input JSON: ".to_string();
            message.append(reason.as_str());
            message.append(". Expected {\"location\": \"Denver, CO\"}.");
            return Err(WeatherError::InvalidInput(message));
        },
    };
    let location = match &query.location {
        Some(text) => trim(text.as_str()),
        None => String::new(),
    };
    if location.as_str().is_empty() {
        return Err(
            WeatherError::InvalidInput("Please provide a location, like 'Denver, CO'.".to_string()),
        );
    }
    let units = match &query.units {
        Some(text) => parse_units(Some(text.as_str())),
        None => parse_units(None),
    };
    match units {
        Ok(units) => Ok(RequestOptions { location, units }),
        Err(error) => Err(error),
    }
}

/// The location of a request that is served is not blank, and has no white space around it.
pub proof fn served_location_is_not_blank(parsed: Result<WeatherQuery, String>)
    requires
        parsed_request(parsed) is Ok,
    ensures
        ({
            let location = parsed_request(parsed)->Ok_0.location;
            &&& location.len() > 0
            &&& !white_space(location.first())
            &&& !white_space(location.last())
        }),
{
    trimmed_is_the_inner_stretch(parsed->Ok_0.location->Some_0@);
}

/// A request without a location, or with white space alone for one, is refused with the same
/// message, whatever units it names.
pub proof fn blank_location_is_refused(query: WeatherQuery)
    requires
        query.location matches Some(text) ==> forall|i: int|
            0 <= i < text@.len() ==> white_space(#[trigger] text@[i]),
    ensures
        request_of(query) == Err::<Request, Failure>(
            Failure::InvalidInput("Please provide a location, like 'Denver, CO'."@),
        ),
{
    if let Some(text) = query.location {
        blank_text_is_trimmed_to_nothing(text@);
    }
}

} // verus!
