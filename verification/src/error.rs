//! The ways in which a request fails, and the answer that reports a failure.

use vstd::prelude::*;
use vstd::string::*;

use crate::json::json_string;
use crate::json::quoted;
use crate::json::quoted_is_read_back;
use crate::json::read_string;

verus! {

/// Why a request was not answered with a weather report. Each variant carries the message that
/// is shown to the user.
#[derive(Debug, Clone, PartialEq, Eq)]
pub enum WeatherError {
    InvalidInput(String),
    RequestFailed(String),
    Api(String),
}

/// The model of a [`WeatherError`]: its variant and the text of its message.
pub enum Failure {
    InvalidInput(Seq<char>),
    RequestFailed(Seq<char>),
    Api(Seq<char>),
}

impl Failure {
    /// The message that is shown to the user.
    pub open spec fn message(self) -> Seq<char> {
        match self {
            Failure::InvalidInput(message) => message,
            Failure::RequestFailed(message) => message,
            Failure::Api(message) => message,
        }
    }
}

impl View for WeatherError {
    type V = Failure;

    open spec fn view(&self) -> Failure {
        match self {
            WeatherError::InvalidInput(message) => Failure::InvalidInput(message@),
            WeatherError::RequestFailed(message) => Failure::RequestFailed(message@),
            WeatherError::Api(message) => Failure::Api(message@),
        }
    }
}

impl WeatherError {
    /// The message that is shown to the user.
    pub fn to_string(&self) -> (message: String)
        ensures
            message@ == self@.message(),
    {
        match self {
            WeatherError::InvalidInput(message) => message.clone(),
            WeatherError::RequestFailed(message) => message.clone(),
            WeatherError::Api(message) => message.clone(),
        }
    }
}

/// The text of the JSON object whose one member, `error`, is the string `message`.
pub open spec fn error_object(message: Seq<char>) -> Seq<char> {
    "{\"error\": "@ + quoted(message) + "}"@
}

/// The answer to a request that failed: a JSON object that holds the error's message.
pub fn error_output(error: &WeatherError) -> (output: String)
    ensures
        output@ == error_object(error@.message()),
{
    let mut output = "{\"error\": ".to_string();
    output.append(json_string(error.to_string().as_str()).as_str());
    output.append("}");
    output
}

/// The answer to a failed request gives the message back: between the head and the closing brace
/// stands a JSON string, and reading it yields the message.
pub proof fn error_object_holds_the_message(message: Seq<char>)
    ensures
        ({
            let output = error_object(message);
            let head = "{\"error\": "@;
            let value = output.subrange(head.len() as int, output.len() - 1);
            &&& output.take(head.len() as int) == head
            &&& read_string(value) == Some(message)
            &&& output.last() == '}'
        }),
{
    reveal_strlit("}");
    let output = error_object(message);
    let head = "{\"error\": "@;
    assert(output.take(head.len() as int) == head);
    assert(output.subrange(head.len() as int, output.len() - 1) == quoted(message));
    quoted_is_read_back(message);
}

/// Two failures with different messages are answered differently.
pub proof fn error_objects_tell_messages_apart(one: Seq<char>, other: Seq<char>)
    requires
        error_object(one) == error_object(other),
    ensures
        one == other,
{
    error_object_holds_the_message(one);
    error_object_holds_the_message(other);
}

} // verus!
