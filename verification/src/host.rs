//! What passes between the skill and its host: texts in memory, web requests and log lines.

use vstd::prelude::*;
use vstd::slice::*;
use vstd::string::*;
use vstd::utf8::*;

use crate::error::error_object;
use crate::error::error_output;
use crate::error::Failure;
use crate::error::WeatherError;

verus! {

/// The level of a log line that reports progress.
pub const INFO_LEVEL: u32 = 2;

/// The level of a log line that reports something odd that does not stop the skill.
pub const WARN_LEVEL: u32 = 3;

/// The level of a log line that reports a failure.
pub const ERROR_LEVEL: u32 = 4;

/// The log line with which the skill starts.
pub const START_MESSAGE: &'static str = "Weather skill starting";

/// The JSON object without members: a request carries no headers.
pub const EMPTY_JSON: &'static str = "{}";

/// The number of bytes that are read at most for a text of the host. An answer of the forecast
/// service for three days can exceed 8 KB; 16 KB hold it whole.
pub const MAX_HOST_STRING_LEN: usize = 16 * 1024;

// ---------------------------------------------------------------------------
// Texts in memory
// ---------------------------------------------------------------------------

/// The bytes before the first zero byte; all of them where there is none.
pub open spec fn before_zero(bytes: Seq<u8>) -> Seq<u8>
    decreases bytes.len(),
{
    if bytes.len() == 0 || bytes.first() == 0 {
        seq![]
    } else {
        seq![bytes.first()] + before_zero(bytes.drop_first())
    }
}

/// The bytes of the text that starts where `memory` starts: those before the first zero byte,
/// and no more than are read at most.
pub open spec fn host_bytes(memory: Seq<u8>) -> Seq<u8> {
    before_zero(
        memory.take(
            if memory.len() <= MAX_HOST_STRING_LEN {
                memory.len() as int
            } else {
                MAX_HOST_STRING_LEN as int
            },
        ),
    )
}

/// Whether `memory` starts with the text, in UTF-8 and followed by a zero byte. A text that fills
/// all that is read needs no zero byte behind it. A text with a zero character in it cannot be
/// held so.
pub open spec fn holds_text(memory: Seq<u8>, text: Seq<char>) -> bool {
    let bytes = encode_utf8(text);
    let n = bytes.len() as int;
    &&& !text.contains('\0')
    &&& n <= MAX_HOST_STRING_LEN
    &&& n <= memory.len()
    &&& memory.take(n) == bytes
    &&& n == MAX_HOST_STRING_LEN || (n < memory.len() && memory[n] == 0)
}

/// The text that `String::from_utf8_lossy` makes of a row of bytes.
pub uninterp spec fn utf8_lossy(bytes: Seq<u8>) -> Seq<char>;

/// `String::from_utf8_lossy`: the text depends on the bytes alone. Where they are valid UTF-8 it is
/// the text that they encode; where they are not, the replacement character stands in it for what
/// is not valid. Which bytes one replacement character stands for is left open.
#[verifier::external_body]
fn lossy_text(bytes: &[u8]) -> (text: String)
    ensures
        text@ == utf8_lossy(bytes@),
        valid_utf8(bytes@) ==> text@ == decode_utf8(bytes@),
        !valid_utf8(bytes@) ==> text@.contains('\u{fffd}'),
{
    String::from_utf8_lossy(bytes).into_owned()
}

/// The length of the text that starts where `memory` starts.
pub fn host_string_len(memory: &[u8]) -> (len: usize)
    ensures
        len == host_bytes(memory@).len(),
        len <= memory@.len(),
        host_bytes(memory@) == memory@.take(len as int),
{
    let limit: usize = if memory.len() <= MAX_HOST_STRING_LEN {
        memory.len()
    } else {
        MAX_HOST_STRING_LEN
    };
    let ghost window = memory@.take(limit as int);
    let mut len: usize = 0;
    assert(window.skip(0) == window);
    while len < limit && memory[len] != 0
        invariant
            len <= limit <= memory@.len(),
            window == memory@.take(limit as int),
            before_zero(window) == memory@.take(len as int) + before_zero(
                window.skip(len as int),
            ),
        decreases limit - len,
    {
        assert(window.skip(len as int).first() == memory@[len as int]);
        assert(window.skip(len as int).drop_first() == window.skip(len + 1));
        assert(memory@.take(len + 1) == memory@.take(len as int) + seq![memory@[len as int]]);
        len = len + 1;
    }
    assert(before_zero(window.skip(len as int)) == Seq::<u8>::empty());
    assert(before_zero(window) == memory@.take(len as int));
    len
}

/// The text that the host handed over: none where it handed over no address, else the text that
/// starts where `memory` starts. What the host wrote as UTF-8, with a zero byte behind it, is
/// read back.
pub fn read_host_string(memory: Option<&[u8]>) -> (text: String)
    ensures
        match memory {
            None => text@ == Seq::<char>::empty(),
            Some(memory) => {
                &&& text@ == utf8_lossy(host_bytes(memory@))
                &&& valid_utf8(host_bytes(memory@)) ==> text@ == decode_utf8(host_bytes(memory@))
                &&& !valid_utf8(host_bytes(memory@)) ==> text@.contains('\u{fffd}')
                &&& forall|written: Seq<char>| #[trigger]
                    holds_text(memory@, written) ==> text@ == written
            },
        },
{
    match memory {
        None => String::new(),
        Some(memory) => {
            let len: usize = host_string_len(memory);
            let bytes = slice_subrange(memory, 0, len);
            assert(bytes@ == host_bytes(memory@));
            let text = lossy_text(bytes);
            proof {
                assert forall|written: Seq<char>| #[trigger] holds_text(memory@, written) implies text@
                    == written by {
                    held_text_is_found(memory@, written);
                    encode_utf8_valid_utf8(written);
                    encode_utf8_decode_utf8(written);
                }
            }
            text
        },
    }
}

/// The bytes that are read of a text are its UTF-8 bytes, whatever stands behind the zero byte.
pub proof fn held_text_is_found(memory: Seq<u8>, text: Seq<char>)
    requires
        holds_text(memory, text),
    ensures
        host_bytes(memory) == encode_utf8(text),
{
    let bytes = encode_utf8(text);
    let n = bytes.len() as int;
    let limit = if memory.len() <= MAX_HOST_STRING_LEN {
        memory.len() as int
    } else {
        MAX_HOST_STRING_LEN as int
    };
    let window = memory.take(limit);
    lemma_no_zero_byte(text);
    assert forall|i: int| 0 <= i < n implies window[i] != 0 by {
        assert(window[i] == memory.take(n)[i]);
        assert(bytes[i] != 0);
    }
    lemma_before_zero(window, n);
    assert(window.take(n) == bytes);
}

proof fn lemma_before_zero(bytes: Seq<u8>, n: int)
    requires
        0 <= n <= bytes.len(),
        forall|i: int| 0 <= i < n ==> bytes[i] != 0,
        n == bytes.len() || bytes[n] == 0,
    ensures
        before_zero(bytes) == bytes.take(n),
    decreases n,
{
    if n > 0 {
        let rest = bytes.drop_first();
        assert forall|i: int| 0 <= i < n - 1 implies rest[i] != 0 by {
            assert(rest[i] == bytes[i + 1]);
        }
        lemma_before_zero(rest, n - 1);
        assert(bytes.take(n) == seq![bytes.first()] + rest.take(n - 1));
    } else {
        assert(bytes.take(0) == Seq::<u8>::empty());
    }
}

/// Only the zero character has a zero byte in its encoding.
proof fn lemma_no_zero_byte(text: Seq<char>)
    requires
        !text.contains('\0'),
    ensures
        forall|i: int| 0 <= i < encode_utf8(text).len() ==> #[trigger] encode_utf8(text)[i] != 0,
    decreases text.len(),
{
    if text.len() > 0 {
        let rest = text.drop_first();
        assert forall|i: int| 0 <= i < rest.len() implies rest[i] != '\0' by {
            assert(rest[i] == text[i + 1]);
            assert(text.contains(text[i + 1]));
        }
        lemma_no_zero_byte(rest);
        assert(text.contains(text[0]));
        lemma_no_zero_byte_in_char(text[0]);
        let head = encode_scalar(text[0] as u32);
        assert(encode_utf8(text) == head + encode_utf8(rest));
        assert forall|i: int| 0 <= i < encode_utf8(text).len() implies #[trigger] encode_utf8(
            text,
        )[i] != 0 by {
            if i < head.len() {
                assert(encode_utf8(text)[i] == head[i]);
            } else {
                assert(encode_utf8(text)[i] == encode_utf8(rest)[i - head.len()]);
            }
        }
    }
}

proof fn lemma_no_zero_byte_in_char(c: char)
    requires
        c != '\0',
    ensures
        forall|i: int|
            0 <= i < encode_scalar(c as u32).len() ==> #[trigger] encode_scalar(c as u32)[i] != 0,
{
    char_is_scalar(c);
    let scalar = c as u32;
    assert(scalar != 0);
    assert(1 <= scalar <= 0x7f ==> (scalar & 0x7f) as u8 != 0) by (bit_vector);
    assert((0xc0 | ((scalar >> 6) & 0x1f) as u8) != 0) by (bit_vector);
    assert((0xe0 | ((scalar >> 12) & 0x0f) as u8) != 0) by (bit_vector);
    assert((0xf0 | ((scalar >> 18) & 0x7) as u8) != 0) by (bit_vector);
    assert((0x80 | (scalar & 0x3f) as u8) != 0) by (bit_vector);
    assert((0x80 | ((scalar >> 6) & 0x3f) as u8) != 0) by (bit_vector);
    assert((0x80 | ((scalar >> 12) & 0x3f) as u8) != 0) by (bit_vector);
}

// ---------------------------------------------------------------------------
// Web requests
// ---------------------------------------------------------------------------

/// A web request, as the host takes it.
#[derive(Debug, Clone, PartialEq, Eq)]
pub struct HttpRequest {
    pub method: String,
    pub url: String,
    pub headers: String,
    pub body: String,
}

/// The model of [`HttpRequest`].
pub struct WebRequest {
    pub method: Seq<char>,
    pub url: Seq<char>,
    pub headers: Seq<char>,
    pub body: Seq<char>,
}

impl View for HttpRequest {
    type V = WebRequest;

    open spec fn view(&self) -> WebRequest {
        WebRequest {
            method: self.method@,
            url: self.url@,
            headers: self.headers@,
            body: self.body@,
        }
    }
}

/// The request that fetches `url`: no headers, and nothing in its body.
pub open spec fn get_of(url: Seq<char>) -> WebRequest {
    WebRequest { method: "GET"@, url, headers: EMPTY_JSON@, body: seq![] }
}

/// The request that fetches `url`.
pub fn http_get_request(url: String) -> (request: HttpRequest)
    ensures
        request@ == get_of(url@),
{
    HttpRequest {
        method: "GET".to_string(),
        url,
        headers: EMPTY_JSON.to_string(),
        body: String::new(),
    }
}

/// The failure of a web request that brought nothing.
pub open spec fn request_failure() -> Failure {
    Failure::RequestFailed("Weather service request failed."@)
}

/// The body of a response. The host answers a failed request with the empty text.
pub fn require_response_body(response: String) -> (result: Result<String, WeatherError>)
    ensures
        result is Ok <==> response@.len() > 0,
        result matches Ok(body) ==> body@ == response@,
        result matches Err(error) ==> error@ == request_failure(),
{
    if response.as_str().is_empty() {
        return Err(WeatherError::RequestFailed("Weather service request failed.".to_string()));
    }
    Ok(response)
}

/// The failure for a response that cannot be read; `reason` is what the JSON parser says.
pub open spec fn unreadable_response(reason: Seq<char>) -> Failure {
    Failure::Api("Failed to parse weather data: "@ + reason)
}

/// The value that the JSON parser read from a response, or the failure with the reason it gave.
pub fn parse_json_response<T>(parsed: Result<T, String>) -> (result: Result<T, WeatherError>)
    ensures
        match parsed {
            Ok(value) => result == Ok::<T, WeatherError>(value),
            Err(reason) => result is Err && result->Err_0@ == unreadable_response(reason@),
        },
{
    match parsed {
        Ok(value) => Ok(value),
        Err(reason) => {
            let mut message = "Failed to parse weather data: ".to_string();
            message.append(reason.as_str());
            Err(WeatherError::Api(message))
        },
    }
}

// ---------------------------------------------------------------------------
// The answer
// ---------------------------------------------------------------------------

/// What the host is told in the end: the output, and what is logged as an error before it.
#[derive(Debug, Clone, PartialEq, Eq)]
pub struct Answer {
    pub error_log: Option<String>,
    pub output: String,
}

/// The answer to a request: the report where there is one. A failure is logged, and answered with
/// a JSON object that holds its message.
pub fn answer(result: Result<String, WeatherError>) -> (answer: Answer)
    ensures
        match result {
            Ok(report) => answer.error_log is None && answer.output@ == report@,
            Err(error) => {
                &&& answer.error_log is Some
                &&& answer.error_log->Some_0@ == error@.message()
                &&& answer.output@ == error_object(error@.message())
            },
        },
{
    match result {
        Ok(report) => Answer { error_log: None, output: report },
        Err(error) => Answer {
            error_log: Some(error.to_string()),
            output: error_output(&error),
        },
    }
}

} // verus!
