//! How a request is served, step by step.

use vstd::prelude::*;

use crate::error::Failure;
use crate::forecast::ForecastResponse;
use crate::geocode::coordinates_of;
use crate::geocode::GeocodeResponse;
use crate::laws::requests::conversions_relate_the_scales;
use crate::laws::requests::web_requests_fetch_their_address;
use crate::query::parsed_request;
use crate::query::Request;
use crate::query::RequestOptions;
use crate::query::WeatherQuery;
use crate::report::report_of;
use crate::report::report_text;
use crate::report::Report;
use crate::skill::next_task;
use crate::skill::proceeds;
use crate::skill::reply_to;
use crate::skill::Action;
use crate::skill::Event;
use crate::skill::Replies;
use crate::skill::Task;
use crate::units::Conversion;
use crate::units::Units;
use crate::url::forecast_url;
use crate::url::geocode_url;

verus! {

/// Whether a conversion takes temperatures in `units` to the other units: from `one` it reaches
/// `other` exactly where `other` is the same heat on the other scale. Both are given in parts of a
/// degree of which `scale` make one.
pub open spec fn takes_to_the_other_units(
    conversion: Conversion,
    units: Units,
    one: int,
    other: int,
    scale: int,
) -> bool {
    let reached = (other - conversion.add * scale) * conversion.divide == (one - conversion.subtract
        * scale) * conversion.multiply;
    match units {
        Units::Fahrenheit => reached <==> 9 * other == 5 * (one - 32 * scale),
        Units::Celsius => reached <==> 5 * (other - 32 * scale) == 9 * one,
    }
}

/// Whenever the answer of the forecast service is to be read, the conversion that goes with it
/// takes the units of the request to the other units.
pub proof fn forecast_is_read_with_the_conversion_of_its_units(
    event: Event,
    one: int,
    other: int,
    scale: int,
)
    ensures
        next_task(event) matches Task::ReadForecast { options, body, conversion } ==> {
            &&& conversion.divide > 0
            &&& takes_to_the_other_units(conversion, options.units, one, other, scale)
            &&& conversion.takes(one, other, scale) <==> (match options.units {
                Units::Fahrenheit => 9 * other == 5 * (one - 32 * scale),
                Units::Celsius => 5 * (other - 32 * scale) == 9 * one,
            })
        },
{
    if let Task::ReadForecast { options, body, conversion } = next_task(event) {
        conversions_relate_the_scales(Units::Fahrenheit, Units::Celsius, one, other, scale);
        conversions_relate_the_scales(Units::Celsius, Units::Fahrenheit, one, other, scale);
    }
}

/// In every run of a request, where the answer of the forecast service is to be read, the
/// conversion that goes with it takes the units that the user asked for to the other units.
pub proof fn each_run_converts_from_the_requested_units(
    input: String,
    replies: Replies,
    actions: Seq<Action>,
    step: int,
    one: int,
    other: int,
    scale: int,
)
    requires
        proceeds(input, replies, actions),
        0 <= step < actions.len(),
    ensures
        actions[step]@ matches Task::ReadForecast { options, body, conversion } ==> {
            &&& parsed_request(replies.query) == Ok::<Request, Failure>(options)
            &&& conversion.divide > 0
            &&& takes_to_the_other_units(conversion, options.units, one, other, scale)
        },
{
    each_action_serves_the_request(input, replies, actions, step);
    assert(actions[step] == actions[step]);
    if step > 0 {
        let event = reply_to(actions[step - 1], replies)->Some_0;
        assert(actions[step]@ == next_task(event));
        forecast_is_read_with_the_conversion_of_its_units(event, one, other, scale);
    }
}

/// Whether a task is the one of that step in a request: it goes with the place and the units that
/// the user asked for, the services are asked at their addresses, and the bodies that are read are
/// those that the services sent.
pub open spec fn serves(input: String, replies: Replies, step: int, task: Task) -> bool {
    match task {
        Task::ReadQuery(text) => step == 0 && text == input@,
        Task::FetchPlaces { options, request } => {
            &&& step == 1
            &&& parsed_request(replies.query) == Ok::<Request, Failure>(options)
            &&& request.method == "GET"@
            &&& request.url == geocode_url(options.location)
        },
        Task::ReadPlaces { options, body } => {
            &&& step == 2
            &&& parsed_request(replies.query) == Ok::<Request, Failure>(options)
            &&& body == replies.places_body@
        },
        Task::FetchForecast { options, request } => {
            &&& step == 3
            &&& parsed_request(replies.query) == Ok::<Request, Failure>(options)
            &&& replies.places is Ok
            &&& coordinates_of(options.location, replies.places->Ok_0) is Ok
            &&& request.method == "GET"@
            &&& request.url == forecast_url(
                coordinates_of(options.location, replies.places->Ok_0)->Ok_0,
                options.units,
            )
        },
        Task::ReadForecast { options, body, conversion } => {
            &&& step == 4
            &&& parsed_request(replies.query) == Ok::<Request, Failure>(options)
            &&& body == replies.forecast_body@
        },
        Task::Finish { warning, result } => step > 0,
    }
}

/// Every action of a run serves the request of the user, in the order of the steps.
pub proof fn each_action_serves_the_request(
    input: String,
    replies: Replies,
    actions: Seq<Action>,
    step: int,
)
    requires
        proceeds(input, replies, actions),
        0 <= step < actions.len(),
    ensures
        serves(input, replies, step, actions[step]@),
    decreases step,
{
    assert(actions[step] == actions[step]);
    if step > 0 {
        each_action_serves_the_request(input, replies, actions, step - 1);
        lemma_step(input, replies, step, actions[step - 1], actions[step]@);
    }
}

proof fn lemma_step(input: String, replies: Replies, step: int, before: Action, after: Task)
    requires
        step > 0,
        serves(input, replies, step - 1, before@),
        reply_to(before, replies) is Some,
        after == next_task(reply_to(before, replies)->Some_0),
    ensures
        serves(input, replies, step, after),
{
    match before {
        Action::ReadQuery(_) => {},
        Action::FetchPlaces { options, request } => {},
        Action::ReadPlaces { options, body } => {},
        Action::FetchForecast { options, request } => {},
        Action::ReadForecast { options, body, conversion } => {},
        Action::Finish { warning, result } => {},
    }
}

/// The model of an action is of the same kind and holds what the action holds.
pub proof fn tasks_hold_what_their_actions_hold(action: Action)
    ensures
        match action {
            Action::ReadQuery(text) => action@ == Task::ReadQuery(text@),
            Action::FetchPlaces { options, request } => {
                &&& action@ matches Task::FetchPlaces { options: wanted, request: sent }
                &&& wanted.location == options.location@ && wanted.units == options.units
                &&& sent.method == request.method@ && sent.url == request.url@
                &&& sent.headers == request.headers@ && sent.body == request.body@
            },
            Action::ReadPlaces { options, body } => {
                &&& action@ matches Task::ReadPlaces { options: wanted, body: text }
                &&& wanted.location == options.location@ && wanted.units == options.units
                &&& text == body@
            },
            Action::FetchForecast { options, request } => {
                &&& action@ matches Task::FetchForecast { options: wanted, request: sent }
                &&& wanted.location == options.location@ && wanted.units == options.units
                &&& sent.method == request.method@ && sent.url == request.url@
                &&& sent.headers == request.headers@ && sent.body == request.body@
            },
            Action::ReadForecast { options, body, conversion } => {
                &&& action@ matches Task::ReadForecast {
                    options: wanted,
                    body: text,
                    conversion: applied,
                }
                &&& wanted.location == options.location@ && wanted.units == options.units
                &&& text == body@
                &&& applied == conversion
            },
            Action::Finish { warning, result } => {
                &&& action@ matches Task::Finish { warning: logged, result: answered }
                &&& match warning {
                    Some(text) => logged == Some(text@),
                    None => logged is None,
                }
                &&& match result {
                    Ok(text) => answered == Ok::<Seq<char>, Failure>(text@),
                    Err(error) => answered == Err::<Seq<char>, Failure>(error@),
                }
            },
        },
{
}

/// The input is read as it is. A request that can be served asks for its place; one that cannot
/// ends with its failure.
pub proof fn a_request_asks_for_its_place(input: String, parsed: Result<WeatherQuery, String>)
    ensures
        next_task(Event::Input(input)) == Task::ReadQuery(input@),
        match parsed_request(parsed) {
            Err(failure) => next_task(Event::QueryRead(parsed)) == (Task::Finish {
                warning: None,
                result: Err(failure),
            }),
            Ok(wanted) => {
                &&& next_task(Event::QueryRead(parsed)) matches Task::FetchPlaces {
                    options,
                    request,
                }
                &&& options == wanted
                &&& request.method == "GET"@
                &&& request.url == geocode_url(wanted.location)
                &&& request.headers == "{}"@
                &&& request.body.len() == 0
            },
        },
{
    if let Ok(wanted) = parsed_request(parsed) {
        web_requests_fetch_their_address(geocode_url(wanted.location), seq![]);
    }
}

/// What a service sends is read as it is, for the same request. A service that sends nothing ends
/// the request.
pub proof fn an_answer_is_read_as_it_is(options: RequestOptions, body: String)
    ensures
        body@.len() == 0 ==> {
            let failed = Task::Finish {
                warning: None,
                result: Err(Failure::RequestFailed("Weather service request failed."@)),
            };
            &&& next_task(Event::PlacesFetched { options, body }) == failed
            &&& next_task(Event::ForecastFetched { options, body }) == failed
        },
        body@.len() > 0 ==> {
            &&& next_task(Event::PlacesFetched { options, body }) == (Task::ReadPlaces {
                options: options@,
                body: body@,
            })
            &&& next_task(Event::ForecastFetched { options, body }) matches Task::ReadForecast {
                options: wanted,
                body: text,
                conversion,
            }
            &&& wanted == options@
            &&& text == body@
        },
{
}

/// An answer that cannot be read ends the request with the reason.
pub proof fn an_unreadable_answer_ends_the_request(options: RequestOptions, reason: String)
    ensures
        ({
            let failed = Task::Finish {
                warning: None,
                result: Err(Failure::Api("Failed to parse weather data: "@ + reason@)),
            };
            &&& next_task(Event::PlacesRead { options, places: Err(reason) }) == failed
            &&& next_task(Event::ForecastRead { options, forecast: Err(reason) }) == failed
        }),
{
}

/// Where a place was found, the forecast is asked for at the coordinates of the first one, in the
/// units of the request; where none was, the request ends with a failure that names the place.
pub proof fn the_forecast_is_asked_for_at_the_first_place(
    options: RequestOptions,
    places: GeocodeResponse,
)
    ensures
        ({
            let task = next_task(Event::PlacesRead { options, places: Ok(places) });
            if places.results is Some && places.results->Some_0@.len() > 0 {
                let first = places.results->Some_0@.first();
                &&& task matches Task::FetchForecast { options: wanted, request }
                &&& wanted == options@
                &&& request.method == "GET"@
                &&& request.headers == "{}"@
                &&& request.body.len() == 0
                &&& request.url == "https://api.open-meteo.com/v1/forecast?latitude="@
                    + first.latitude@ + "&longitude="@ + first.longitude@
                    + "&current=temperature_2m,relative_humidity_2m,wind_speed_10m,weather_code&daily=weather_code,temperature_2m_max,temperature_2m_min&timezone=auto&forecast_days=3"@
                    + (if options.units == Units::Fahrenheit {
                    "&temperature_unit=fahrenheit&wind_speed_unit=mph"@
                } else {
                    seq![]
                })
            } else {
                task == (Task::Finish {
                    warning: None,
                    result: Err(
                        Failure::Api("No weather results found for '"@ + options.location@ + "'."@),
                    ),
                })
            }
        }),
{
}

/// When the forecast was read the request ends: with the text of the report or the failure to make
/// one, and in either case with the warning about the lengths of the lists, where there is one.
pub proof fn a_readable_forecast_ends_the_request(
    options: RequestOptions,
    forecast: ForecastResponse,
)
    ensures
        ({
            let task = next_task(Event::ForecastRead { options, forecast: Ok(forecast) });
            &&& task matches Task::Finish { warning, result }
            &&& warning == forecast.daily.length_warning()
            &&& result is Ok <==> report_of(options@, forecast) is Ok
            &&& result matches Ok(text) ==> text == report_text(
                report_of(options@, forecast)->Ok_0,
            )
            &&& result matches Err(failure) ==> report_of(options@, forecast) == Err::<Report, Failure>(
                failure,
            )
        }),
{
}

} // verus!
