//! How a request is served, step by step.
//!
//! The skill decides; its surroundings act. Each step takes what has come in and says what is to
//! be done next: read a JSON text, send a web request, or finish. What a later step needs of an
//! earlier one travels with the action and comes back with the event.

use vstd::prelude::*;

use crate::error::Failure;
use crate::error::WeatherError;
use crate::forecast::forecast_length_warning;
use crate::forecast::ForecastResponse;
use crate::geocode::coordinates_of;
use crate::geocode::resolve_location;
use crate::geocode::GeocodeResponse;
use crate::host::get_of;
use crate::host::http_get_request;
use crate::host::parse_json_response;
use crate::host::request_failure;
use crate::host::require_response_body;
use crate::host::unreadable_response;
use crate::host::HttpRequest;
use crate::host::WebRequest;
use crate::query::parse_query;
use crate::query::parsed_request;
use crate::query::Request;
use crate::query::RequestOptions;
use crate::query::WeatherQuery;
use crate::report::fetch_weather;
use crate::report::format_report;
use crate::report::report_of;
use crate::report::report_text;
use crate::text::optional_string;
use crate::units::conversion_between;
use crate::units::temperature_conversion;
use crate::units::Conversion;
use crate::url::build_geocode_url;
use crate::url::build_weather_url;
use crate::url::forecast_url;
use crate::url::geocode_url;

verus! {

/// What has come in. Where a JSON text was read, a text in place of the value is the reason why
/// it could not be read.
#[derive(Debug, PartialEq, Eq)]
pub enum Event {
    /// The input of the user.
    Input(String),
    /// The input was read as a request object.
    QueryRead(Result<WeatherQuery, String>),
    /// The geocoding service answered; the body is empty where the request failed.
    PlacesFetched { options: RequestOptions, body: String },
    /// The answer of the geocoding service was read.
    PlacesRead { options: RequestOptions, places: Result<GeocodeResponse, String> },
    /// The forecast service answered; the body is empty where the request failed.
    ForecastFetched { options: RequestOptions, body: String },
    /// The answer of the forecast service was read.
    ForecastRead { options: RequestOptions, forecast: Result<ForecastResponse, String> },
}

/// What is to be done next.
#[derive(Debug, PartialEq, Eq)]
pub enum Action {
    /// Read the text as a request object.
    ReadQuery(String),
    /// Ask the geocoding service.
    FetchPlaces { options: RequestOptions, request: HttpRequest },
    /// Read the body as an answer of the geocoding service.
    ReadPlaces { options: RequestOptions, body: String },
    /// Ask the forecast service.
    FetchForecast { options: RequestOptions, request: HttpRequest },
    /// Read the body as an answer of the forecast service. The conversion takes a temperature to
    /// the other units.
    ReadForecast { options: RequestOptions, body: String, conversion: Conversion },
    /// Log the warning, where there is one, and answer with the result.
    Finish { warning: Option<String>, result: Result<String, WeatherError> },
}

/// The model of [`Action`].
pub enum Task {
    ReadQuery(Seq<char>),
    FetchPlaces { options: Request, request: WebRequest },
    ReadPlaces { options: Request, body: Seq<char> },
    FetchForecast { options: Request, request: WebRequest },
    ReadForecast { options: Request, body: Seq<char>, conversion: Conversion },
    Finish { warning: Option<Seq<char>>, result: Result<Seq<char>, Failure> },
}

impl View for Action {
    type V = Task;

    open spec fn view(&self) -> Task {
        match self {
            Action::ReadQuery(text) => Task::ReadQuery(text@),
            Action::FetchPlaces { options, request } => Task::FetchPlaces {
                options: options@,
                request: request@,
            },
            Action::ReadPlaces { options, body } => Task::ReadPlaces {
                options: options@,
                body: body@,
            },
            Action::FetchForecast { options, request } => Task::FetchForecast {
                options: options@,
                request: request@,
            },
            Action::ReadForecast { options, body, conversion } => Task::ReadForecast {
                options: options@,
                body: body@,
                conversion: *conversion,
            },
            Action::Finish { warning, result } => Task::Finish {
                warning: optional_string(*warning),
                result: match result {
                    Ok(text) => Ok(text@),
                    Err(error) => Err(error@),
                },
            },
        }
    }
}

/// To give up, with nothing to warn of.
pub open spec fn fail(failure: Failure) -> Task {
    Task::Finish { warning: None, result: Err(failure) }
}

/// To show the report that answers a request. A warning about lists of different lengths is
/// logged whether or not there is a report.
pub open spec fn show(request: Request, forecast: ForecastResponse) -> Task {
    Task::Finish {
        warning: forecast.daily.length_warning(),
        result: match report_of(request, forecast) {
            Ok(report) => Ok(report_text(report)),
            Err(failure) => Err(failure),
        },
    }
}

/// What is to be done next.
pub open spec fn next_task(event: Event) -> Task {
    match event {
        Event::Input(text) => Task::ReadQuery(text@),
        Event::QueryRead(parsed) => match parsed_request(parsed) {
            Err(failure) => fail(failure),
            Ok(options) => Task::FetchPlaces {
                options,
                request: get_of(geocode_url(options.location)),
            },
        },
        Event::PlacesFetched { options, body } => if body@.len() == 0 {
            fail(request_failure())
        } else {
            Task::ReadPlaces { options: options@, body: body@ }
        },
        Event::PlacesRead { options, places } => match places {
            Err(reason) => fail(unreadable_response(reason@)),
            Ok(places) => match coordinates_of(options.location@, places) {
                Err(failure) => fail(failure),
                Ok(place) => Task::FetchForecast {
                    options: options@,
                    request: get_of(forecast_url(place, options.units)),
                },
            },
        },
        Event::ForecastFetched { options, body } => if body@.len() == 0 {
            fail(request_failure())
        } else {
            Task::ReadForecast {
                options: options@,
                body: body@,
                conversion: conversion_between(options.units, options.units.opposite()),
            }
        },
        Event::ForecastRead { options, forecast } => match forecast {
            Err(reason) => fail(unreadable_response(reason@)),
            Ok(forecast) => show(options@, forecast),
        },
    }
}

fn give_up(error: WeatherError) -> (action: Action)
    ensures
        action@ == fail(error@),
{
    Action::Finish { warning: None, result: Err(error) }
}

/// Serves a request by one step: from what has come in to what is to be done next.
pub fn execute(event: Event) -> (action: Action)
    ensures
        action@ == next_task(event),
{
    match event {
        Event::Input(text) => Action::ReadQuery(text),
        Event::QueryRead(parsed) => match parse_query(parsed) {
            Ok(options) => {
                let url = build_geocode_url(options.location.as_str());
                Action::FetchPlaces { options, request: http_get_request(url) }
            },
            Err(error) => give_up(error),
        },
        Event::PlacesFetched { options, body } => match require_response_body(body) {
            Ok(body) => Action::ReadPlaces { options, body },
            Err(error) => give_up(error),
        },
        Event::PlacesRead { options, places } => match parse_json_response(places) {
            Ok(places) => match resolve_location(options.location.as_str(), &places) {
                Ok(place) => {
                    let url = build_weather_url(&place, options.units);
                    Action::FetchForecast { options, request: http_get_request(url) }
                },
                Err(error) => give_up(error),
            },
            Err(error) => give_up(error),
        },
        Event::ForecastFetched { options, body } => match require_response_body(body) {
            Ok(body) => {
                let conversion = temperature_conversion(options.units, options.units.other());
                Action::ReadForecast { options, body, conversion }
            },
            Err(error) => give_up(error),
        },
        Event::ForecastRead { options, forecast } => match parse_json_response(forecast) {
            Ok(forecast) => {
                let warning = forecast_length_warning(&forecast.daily);
                let result = match fetch_weather(&options, &forecast) {
                    Ok(report) => Ok(format_report(&report)),
                    Err(error) => Err(error),
                };
                Action::Finish { warning, result }
            },
            Err(error) => give_up(error),
        },
    }
}

// ---------------------------------------------------------------------------
// A request from its start to its end
// ---------------------------------------------------------------------------

/// What the surroundings of the skill have to say during one request: what the JSON parser makes
/// of each text, and what the services answer.
pub struct Replies {
    pub query: Result<WeatherQuery, String>,
    pub places_body: String,
    pub places: Result<GeocodeResponse, String>,
    pub forecast_body: String,
    pub forecast: Result<ForecastResponse, String>,
}

/// What comes in when an action is carried out; nothing after the last one.
pub open spec fn reply_to(action: Action, replies: Replies) -> Option<Event> {
    match action {
        Action::ReadQuery(_) => Some(Event::QueryRead(replies.query)),
        Action::FetchPlaces { options, request } => Some(
            Event::PlacesFetched { options, body: replies.places_body },
        ),
        Action::ReadPlaces { options, body } => Some(
            Event::PlacesRead { options, places: replies.places },
        ),
        Action::FetchForecast { options, request } => Some(
            Event::ForecastFetched { options, body: replies.forecast_body },
        ),
        Action::ReadForecast { options, body, conversion } => Some(
            Event::ForecastRead { options, forecast: replies.forecast },
        ),
        Action::Finish { warning, result } => None,
    }
}

/// Whether `actions` is how a request proceeds, up to some point: the first action follows the
/// input, and each further one the reply to the one before it.
pub open spec fn proceeds(input: String, replies: Replies, actions: Seq<Action>) -> bool {
    &&& actions.len() > 0
    &&& actions[0]@ == next_task(Event::Input(input))
    &&& forall|i: int|
        #![trigger actions[i]]
        0 < i < actions.len() ==> {
            &&& reply_to(actions[i - 1], replies) is Some
            &&& actions[i]@ == next_task(reply_to(actions[i - 1], replies)->Some_0)
        }
}

/// What a request comes to: the text of the report, or the first failure on the way to it.
pub open spec fn outcome(replies: Replies) -> Result<Seq<char>, Failure> {
    match parsed_request(replies.query) {
        Err(failure) => Err(failure),
        Ok(request) => if replies.places_body@.len() == 0 {
            Err(request_failure())
        } else {
            match replies.places {
                Err(reason) => Err(unreadable_response(reason@)),
                Ok(places) => match coordinates_of(request.location, places) {
                    Err(failure) => Err(failure),
                    Ok(_) => if replies.forecast_body@.len() == 0 {
                        Err(request_failure())
                    } else {
                        match replies.forecast {
                            Err(reason) => Err(unreadable_response(reason@)),
                            Ok(forecast) => match report_of(request, forecast) {
                                Err(failure) => Err(failure),
                                Ok(report) => Ok(report_text(report)),
                            },
                        }
                    },
                },
            }
        },
    }
}

/// Whether nothing fails before the answer of the forecast service is read.
pub open spec fn reads_forecast(replies: Replies) -> bool {
    &&& parsed_request(replies.query) is Ok
    &&& replies.places_body@.len() > 0
    &&& replies.places is Ok
    &&& coordinates_of(
        parsed_request(replies.query)->Ok_0.location,
        replies.places->Ok_0,
    ) is Ok
    &&& replies.forecast_body@.len() > 0
}

/// What is logged as a warning: where the answer of the forecast service was read, what its lists
/// of different lengths give rise to; else nothing.
pub open spec fn logged_warning(replies: Replies) -> Option<Seq<char>> {
    match replies.forecast {
        Ok(forecast) if reads_forecast(replies) => forecast.daily.length_warning(),
        _ => None,
    }
}

/// A request is served in at most six steps, and ends with what it comes to: the report, or the
/// first failure on the way to it.
pub proof fn request_ends_with_its_outcome(input: String, replies: Replies, actions: Seq<Action>)
    requires
        proceeds(input, replies, actions),
    ensures
        actions.len() <= 6,
        actions.len() == 6 ==> actions.last()@ is Finish,
        actions.last()@ matches Task::Finish { warning, result } ==> result == outcome(replies)
            && warning == logged_warning(replies),
{
    lemma_steps(input, replies, actions);
}

/// The first steps, one by one.
proof fn lemma_steps(input: String, replies: Replies, actions: Seq<Action>)
    requires
        proceeds(input, replies, actions),
    ensures
        actions.len() <= 6,
        actions.len() == 6 ==> actions[5]@ is Finish,
        actions.last()@ matches Task::Finish { warning, result } ==> result == outcome(replies)
            && warning == logged_warning(replies),
        actions.last()@ matches Task::Finish { warning, result } && result is Ok ==> actions.len()
            == 6,
        actions[0]@ == Task::ReadQuery(input@),
        actions.len() > 2 ==> parsed_request(replies.query) is Ok && actions[1]@
            == next_task(Event::QueryRead(replies.query)),
        actions.len() > 4 ==> replies.places is Ok && ({
            let request = parsed_request(replies.query)->Ok_0;
            let place = coordinates_of(request.location, replies.places->Ok_0);
            &&& place is Ok
            &&& actions[3]@ == Task::FetchForecast {
                options: request,
                request: get_of(forecast_url(place->Ok_0, request.units)),
            }
        }),
{
    assert(actions[0]@ is ReadQuery);
    if actions.len() > 1 {
        assert(actions[1]@ == next_task(reply_to(actions[0], replies)->Some_0));
    }
    if actions.len() > 2 {
        assert(actions[2]@ == next_task(reply_to(actions[1], replies)->Some_0));
        assert(actions[1]@ is FetchPlaces);
    }
    if actions.len() > 3 {
        assert(actions[3]@ == next_task(reply_to(actions[2], replies)->Some_0));
        assert(actions[2]@ is ReadPlaces);
    }
    if actions.len() > 4 {
        assert(actions[4]@ == next_task(reply_to(actions[3], replies)->Some_0));
        assert(actions[3]@ is FetchForecast);
    }
    if actions.len() > 5 {
        assert(actions[5]@ == next_task(reply_to(actions[4], replies)->Some_0));
        assert(actions[4]@ is ReadForecast);
        assert(actions[5]@ is Finish);
    }
    if actions.len() > 6 {
        assert(actions[6]@ == next_task(reply_to(actions[5], replies)->Some_0));
    }
}

/// A report is made of exactly two web requests: one for the coordinates of the place that the
/// user names, and one for the forecast at those coordinates, in the units that the user chose.
pub proof fn report_takes_two_web_requests(input: String, replies: Replies, actions: Seq<Action>)
    requires
        proceeds(input, replies, actions),
        actions.last()@ matches Task::Finish { warning, result } && result is Ok,
    ensures
        actions.len() == 6,
        parsed_request(replies.query) is Ok && replies.places is Ok,
        ({
            let request = parsed_request(replies.query)->Ok_0;
            let place = coordinates_of(request.location, replies.places->Ok_0);
            &&& place is Ok
            &&& actions[1]@ == Task::FetchPlaces {
                options: request,
                request: get_of(geocode_url(request.location)),
            }
            &&& actions[3]@ == Task::FetchForecast {
                options: request,
                request: get_of(forecast_url(place->Ok_0, request.units)),
            }
        }),
        forall|i: int|
            #![trigger actions[i]]
            0 <= i < actions.len() && (actions[i]@ is FetchPlaces || actions[i]@ is FetchForecast)
                ==> i == 1 || i == 3,
{
    lemma_steps(input, replies, actions);
    assert(actions[0]@ is ReadQuery);
    assert(actions[1]@ is FetchPlaces);
    assert(actions[2]@ == next_task(reply_to(actions[1], replies)->Some_0));
    assert(actions[3]@ is FetchForecast);
    assert(actions[4]@ == next_task(reply_to(actions[3], replies)->Some_0));
}

} // verus!
