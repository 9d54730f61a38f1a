//! Text as a JSON string.

use vstd::prelude::*;

verus! {

/// The error type of `serde_json`, carried without looking inside.
#[verifier::external_type_specification]
#[verifier::external_body]
pub struct ExSerdeJsonError(serde_json::Error);

/// The lower-case hexadecimal digit of `value`.
pub open spec fn hex_digit(value: int) -> char
    recommends
        0 <= value < 16,
{
    if value < 10 {
        ('0' as u32 + value) as char
    } else {
        ('a' as u32 + value - 10) as char
    }
}

/// How a JSON string writes the character `c`: the quotation mark, the backslash and the control
/// characters below the space are escaped, every other character stands for itself.
pub open spec fn escaped_char(c: char) -> Seq<char> {
    if c == '"' || c == '\\' {
        seq!['\\', c]
    } else if c == '\u{8}' {
        seq!['\\', 'b']
    } else if c == '\u{9}' {
        seq!['\\', 't']
    } else if c == '\u{a}' {
        seq!['\\', 'n']
    } else if c == '\u{c}' {
        seq!['\\', 'f']
    } else if c == '\u{d}' {
        seq!['\\', 'r']
    } else if ' ' > c {
        seq!['\\', 'u', '0', '0', hex_digit(c as int / 16), hex_digit(c as int % 16)]
    } else {
        seq![c]
    }
}

/// `text` with each of its characters written as a JSON string writes it.
pub open spec fn escaped(text: Seq<char>) -> Seq<char>
    decreases text.len(),
{
    if text.len() == 0 {
        seq![]
    } else {
        escaped_char(text.first()) + escaped(text.drop_first())
    }
}

/// `text` as a JSON string, between quotation marks.
pub open spec fn quoted(text: Seq<char>) -> Seq<char> {
    seq!['"'] + escaped(text) + seq!['"']
}

/// `serde_json::to_string` on a text: writing a text into memory does not fail, and gives the
/// JSON string of that text, with the short escapes for backspace, tab, line feed, form feed and
/// carriage return and `\u00xx` in small letters for the other control characters.
#[verifier::external_body]
fn serialized(value: &str) -> (result: Result<String, serde_json::Error>)
    ensures
        result is Ok,
        result->Ok_0@ == quoted(value@),
{
    serde_json::to_string(value)
}

/// `value` as a JSON string, between quotation marks.
pub fn json_string(value: &str) -> (text: String)
    ensures
        text@ == quoted(value@),
{
    match serialized(value) {
        Ok(text) => text,
        Err(_) => "\"Internal serialization error.\"".to_string(),
    }
}

/// The value of a hexadecimal digit, in either case.
pub open spec fn hex_value(c: char) -> Option<int> {
    if '0' <= c <= '9' {
        Some(c as int - '0' as int)
    } else if 'a' <= c <= 'f' {
        Some(c as int - 'a' as int + 10)
    } else if 'A' <= c <= 'F' {
        Some(c as int - 'A' as int + 10)
    } else {
        None
    }
}

/// The character that the escape at the start of `text` stands for, and the length of the escape.
/// Surrogate pairs have no reading here.
pub open spec fn read_escape(text: Seq<char>) -> Option<(char, int)> {
    if text.len() < 2 || text[0] != '\\' {
        None
    } else if text[1] == '"' || text[1] == '\\' || text[1] == '/' {
        Some((text[1], 2))
    } else if text[1] == 'b' {
        Some(('\u{8}', 2))
    } else if text[1] == 't' {
        Some(('\u{9}', 2))
    } else if text[1] == 'n' {
        Some(('\u{a}', 2))
    } else if text[1] == 'f' {
        Some(('\u{c}', 2))
    } else if text[1] == 'r' {
        Some(('\u{d}', 2))
    } else if text[1] == 'u' && text.len() >= 6 {
        match (hex_value(text[2]), hex_value(text[3]), hex_value(text[4]), hex_value(text[5])) {
            (Some(a), Some(b), Some(c), Some(d)) => {
                let code = 4096 * a + 256 * b + 16 * c + d;
                if 0xd800 <= code <= 0xdfff {
                    None
                } else {
                    Some((code as char, 6))
                }
            },
            _ => None,
        }
    } else {
        None
    }
}

/// The text that stands between the quotation marks of a JSON string, read back. A quotation mark
/// or a control character that is not escaped has no reading.
pub open spec fn unescaped(text: Seq<char>) -> Option<Seq<char>>
    decreases text.len(),
{
    if text.len() == 0 {
        Some(seq![])
    } else if text[0] == '\\' {
        match read_escape(text) {
            Some((c, n)) => {
                if 0 < n <= text.len() {
                    match unescaped(text.skip(n)) {
                        Some(rest) => Some(seq![c] + rest),
                        None => None,
                    }
                } else {
                    None
                }
            },
            None => None,
        }
    } else if text[0] == '"' || ' ' > text[0] {
        None
    } else {
        match unescaped(text.drop_first()) {
            Some(rest) => Some(seq![text[0]] + rest),
            None => None,
        }
    }
}

/// A JSON string read back: the quotation marks at its two ends are taken off, and what stands
/// between them is read.
pub open spec fn read_string(text: Seq<char>) -> Option<Seq<char>> {
    if text.len() >= 2 && text.first() == '"' && text.last() == '"' {
        unescaped(text.subrange(1, text.len() - 1))
    } else {
        None
    }
}

/// What is written as a JSON string is read back unchanged.
pub proof fn quoted_is_read_back(text: Seq<char>)
    ensures
        read_string(quoted(text)) == Some(text),
{
    lemma_escaped_is_read_back(text);
    assert(quoted(text).subrange(1, quoted(text).len() - 1) == escaped(text));
}

proof fn lemma_escaped_is_read_back(text: Seq<char>)
    ensures
        unescaped(escaped(text)) == Some(text),
    decreases text.len(),
{
    if text.len() == 0 {
        assert(escaped(text) == Seq::<char>::empty());
    } else {
        lemma_escaped_is_read_back(text.drop_first());
        lemma_escaped_char_is_read_back(text.first(), escaped(text.drop_first()));
        assert(text == seq![text.first()] + text.drop_first());
    }
}

proof fn lemma_escaped_char_is_read_back(c: char, rest: Seq<char>)
    requires
        unescaped(rest) is Some,
    ensures
        unescaped(escaped_char(c) + rest) == Some(seq![c] + unescaped(rest)->Some_0),
{
    let whole = escaped_char(c) + rest;
    let n = escaped_char(c).len() as int;
    assert(whole.skip(n) == rest);
    assert(forall|i: int| 0 <= i < n ==> whole[i] == escaped_char(c)[i]);
    if n == 1 {
        assert(whole.drop_first() == rest);
    } else if n == 6 {
        assert(whole[4] == hex_digit(c as int / 16));
        assert(whole[5] == hex_digit(c as int % 16));
        assert(whole[2] == '0' && whole[3] == '0');
        assert(hex_value(whole[4]) == Some(c as int / 16));
        assert(hex_value(whole[5]) == Some(c as int % 16));
        assert(read_escape(whole) == Some((c, 6int)));
    } else {
        assert(read_escape(whole) == Some((c, 2int)));
    }
}

} // verus!
