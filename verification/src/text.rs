//! Text primitives: characters, white space, decimal numbers, splitting and joining.
//!
//! A text is modelled by its sequence of characters.

use vstd::prelude::*;
use vstd::string::*;

verus! {

/// `String::push` appends one character to the end of the text and changes nothing else.
pub assume_specification[ String::push ](text: &mut String, c: char)
    ensures
        final(text)@ == old(text)@.push(c),
;

/// The texts of a list of strings.
pub open spec fn views(strings: Seq<String>) -> Seq<Seq<char>> {
    strings.map_values(|s: String| s@)
}

/// The text behind a reference, where there is one.
pub open spec fn optional_text(text: Option<&str>) -> Option<Seq<char>> {
    match text {
        Some(text) => Some(text@),
        None => None,
    }
}

/// The text of a string, where there is one.
pub open spec fn optional_string(text: Option<String>) -> Option<Seq<char>> {
    match text {
        Some(text) => Some(text@),
        None => None,
    }
}

/// The characters of `text`, in order.
pub fn characters(text: &str) -> (chars: Vec<char>)
    ensures
        chars@ == text@,
{
    let mut chars: Vec<char> = Vec::new();
    for c in it: text.chars()
        invariant
            it.seq() == text@,
            chars@ == it.seq().take(it.index()),
    {
        chars.push(c);
    }
    chars
}

/// The text made of the characters from `start` up to, not including, `end`.
pub fn text_between(chars: &Vec<char>, start: usize, end: usize) -> (text: String)
    requires
        start <= end <= chars.len(),
    ensures
        text@ == chars@.subrange(start as int, end as int),
{
    let mut text = String::new();
    for i in start..end
        invariant
            start <= end <= chars.len(),
            text@ == chars@.subrange(start as int, i as int),
    {
        text.push(chars[i]);
    }
    text
}

// ---------------------------------------------------------------------------
// White space
// ---------------------------------------------------------------------------

/// The characters with the Unicode property `White_Space`.
pub open spec fn white_space(c: char) -> bool {
    let code = c as u32;
    ||| 0x09 <= code <= 0x0d
    ||| code == 0x20
    ||| code == 0x85
    ||| code == 0xa0
    ||| code == 0x1680
    ||| 0x2000 <= code <= 0x200a
    ||| code == 0x2028
    ||| code == 0x2029
    ||| code == 0x202f
    ||| code == 0x205f
    ||| code == 0x3000
}

/// Whether `c` has the Unicode property `White_Space`.
pub fn is_white_space(c: char) -> (found: bool)
    ensures
        found == white_space(c),
{
    let code: u32 = c as u32;
    (0x09 <= code && code <= 0x0d) || code == 0x20 || code == 0x85 || code == 0xa0 || code == 0x1680
        || (0x2000 <= code && code <= 0x200a) || code == 0x2028 || code == 0x2029 || code == 0x202f
        || code == 0x205f || code == 0x3000
}

/// `text` without the white space at its start.
pub open spec fn trimmed_start(text: Seq<char>) -> Seq<char>
    decreases text.len(),
{
    if text.len() > 0 && white_space(text.first()) {
        trimmed_start(text.drop_first())
    } else {
        text
    }
}

/// `text` without the white space at its end.
pub open spec fn trimmed_end(text: Seq<char>) -> Seq<char>
    decreases text.len(),
{
    if text.len() > 0 && white_space(text.last()) {
        trimmed_end(text.drop_last())
    } else {
        text
    }
}

/// `text` without the white space at its two ends.
pub open spec fn trimmed(text: Seq<char>) -> Seq<char> {
    trimmed_end(trimmed_start(text))
}

/// `text` without the white space at its two ends.
pub fn trim(text: &str) -> (inner: String)
    ensures
        inner@ == trimmed(text@),
{
    let chars = characters(text);
    let mut start: usize = 0;
    assert(chars@.skip(0) == chars@);
    while start < chars.len() && is_white_space(chars[start])
        invariant
            start <= chars.len(),
            trimmed_start(chars@) == trimmed_start(chars@.skip(start as int)),
        decreases chars.len() - start,
    {
        assert(chars@.skip(start as int).drop_first() == chars@.skip(start + 1));
        start = start + 1;
    }
    let mut end: usize = chars.len();
    assert(chars@.subrange(start as int, end as int) == chars@.skip(start as int));
    while start < end && is_white_space(chars[end - 1])
        invariant
            start <= end <= chars.len(),
            trimmed_end(chars@.skip(start as int)) == trimmed_end(
                chars@.subrange(start as int, end as int),
            ),
        decreases end,
    {
        assert(chars@.subrange(start as int, end as int).drop_last() == chars@.subrange(
            start as int,
            end - 1,
        ));
        end = end - 1;
    }
    text_between(&chars, start, end)
}

/// What trimming leaves is a stretch of the text: everything before and after it is white
/// space, and it neither starts nor ends with white space.
pub proof fn trimmed_is_the_inner_stretch(text: Seq<char>) -> (bounds: (int, int))
    ensures
        0 <= bounds.0 <= bounds.1 <= text.len(),
        trimmed(text) == text.subrange(bounds.0, bounds.1),
        forall|i: int| 0 <= i < bounds.0 || bounds.1 <= i < text.len() ==> white_space(text[i]),
        trimmed(text).len() > 0 ==> !white_space(trimmed(text).first()) && !white_space(
            trimmed(text).last(),
        ),
{
    let start = lemma_trimmed_start(text);
    let rest = text.skip(start);
    let end = lemma_trimmed_end(rest);
    assert(rest.take(end) == text.subrange(start, start + end));
    assert forall|i: int| start + end <= i < text.len() implies white_space(text[i]) by {
        assert(rest[i - start] == text[i]);
    }
    (start, start + end)
}

proof fn lemma_trimmed_start(text: Seq<char>) -> (start: int)
    ensures
        0 <= start <= text.len(),
        trimmed_start(text) == text.skip(start),
        forall|i: int| 0 <= i < start ==> white_space(text[i]),
        start < text.len() ==> !white_space(text[start]),
    decreases text.len(),
{
    if text.len() > 0 && white_space(text.first()) {
        let rest = text.drop_first();
        let start = lemma_trimmed_start(rest);
        assert(rest.skip(start) == text.skip(start + 1));
        assert forall|i: int| 0 <= i < start + 1 implies white_space(text[i]) by {
            if i > 0 {
                assert(rest[i - 1] == text[i]);
            }
        }
        start + 1
    } else {
        assert(text.skip(0) == text);
        0
    }
}

proof fn lemma_trimmed_end(text: Seq<char>) -> (end: int)
    ensures
        0 <= end <= text.len(),
        trimmed_end(text) == text.take(end),
        forall|i: int| end <= i < text.len() ==> white_space(text[i]),
        end > 0 ==> !white_space(text[end - 1]),
    decreases text.len(),
{
    if text.len() > 0 && white_space(text.last()) {
        let rest = text.drop_last();
        let end = lemma_trimmed_end(rest);
        assert(rest.take(end) == text.take(end));
        assert forall|i: int| end <= i < text.len() implies white_space(text[i]) by {
            if i < text.len() - 1 {
                assert(rest[i] == text[i]);
            }
        }
        end
    } else {
        assert(text.take(text.len() as int) == text);
        text.len() as int
    }
}

/// White space around a text does not count.
pub proof fn surrounding_white_space_does_not_count(
    before: Seq<char>,
    text: Seq<char>,
    after: Seq<char>,
)
    requires
        forall|i: int| 0 <= i < before.len() ==> white_space(#[trigger] before[i]),
        forall|i: int| 0 <= i < after.len() ==> white_space(#[trigger] after[i]),
    ensures
        trimmed(before + text + after) == trimmed(text),
{
    assert(before + text + after == before + (text + after));
    lemma_white_space_before(before, text + after);
    let start = lemma_trimmed_start(text);
    if start < text.len() {
        lemma_trimmed_start_stops(text, after);
        lemma_white_space_after(trimmed_start(text), after);
    } else {
        assert(trimmed(text) == Seq::<char>::empty());
        assert(text + after == (text + after) + seq![]);
        lemma_white_space_before(text + after, seq![]);
    }
}

/// A text of white space alone is trimmed to nothing.
pub proof fn blank_text_is_trimmed_to_nothing(text: Seq<char>)
    requires
        forall|i: int| 0 <= i < text.len() ==> white_space(#[trigger] text[i]),
    ensures
        trimmed(text).len() == 0,
{
    assert(text == text + seq![]);
    lemma_white_space_before(text, seq![]);
}

proof fn lemma_white_space_before(before: Seq<char>, text: Seq<char>)
    requires
        forall|i: int| 0 <= i < before.len() ==> white_space(#[trigger] before[i]),
    ensures
        trimmed_start(before + text) == trimmed_start(text),
    decreases before.len(),
{
    if before.len() > 0 {
        assert(white_space(before[0]));
        let rest = before.drop_first();
        assert forall|i: int| 0 <= i < rest.len() implies white_space(#[trigger] rest[i]) by {
            assert(rest[i] == before[i + 1]);
        }
        assert((before + text).drop_first() == rest + text);
        lemma_white_space_before(rest, text);
    } else {
        assert(before + text == text);
    }
}

proof fn lemma_white_space_after(text: Seq<char>, after: Seq<char>)
    requires
        forall|i: int| 0 <= i < after.len() ==> white_space(#[trigger] after[i]),
    ensures
        trimmed_end(text + after) == trimmed_end(text),
    decreases after.len(),
{
    if after.len() > 0 {
        assert(white_space(after[after.len() - 1]));
        let rest = after.drop_last();
        assert forall|i: int| 0 <= i < rest.len() implies white_space(#[trigger] rest[i]) by {
            assert(rest[i] == after[i]);
        }
        assert((text + after).drop_last() == text + rest);
        lemma_white_space_after(text, rest);
    } else {
        assert(text + after == text);
    }
}

proof fn lemma_trimmed_start_stops(text: Seq<char>, after: Seq<char>)
    requires
        trimmed_start(text).len() > 0,
    ensures
        trimmed_start(text + after) == trimmed_start(text) + after,
    decreases text.len(),
{
    if white_space(text.first()) {
        assert((text + after).drop_first() == text.drop_first() + after);
        lemma_trimmed_start_stops(text.drop_first(), after);
    }
}

// ---------------------------------------------------------------------------
// ASCII case
// ---------------------------------------------------------------------------

/// An ASCII capital as its small letter; any other character as it is.
pub open spec fn ascii_lower(c: char) -> char {
    if 'A' <= c <= 'Z' {
        (c as u32 + 32) as char
    } else {
        c
    }
}

/// `text` with its ASCII capitals as small letters.
pub open spec fn ascii_lowercase(text: Seq<char>) -> Seq<char> {
    text.map_values(|c: char| ascii_lower(c))
}

fn lower(c: char) -> (small: char)
    ensures
        small == ascii_lower(c),
{
    if 'A' <= c && c <= 'Z' {
        (c as u8 + 32) as char
    } else {
        c
    }
}

/// Whether the two texts are equal when the case of ASCII letters is disregarded.
pub fn equal_ignoring_ascii_case(left: &str, right: &str) -> (equal: bool)
    ensures
        equal == (ascii_lowercase(left@) == ascii_lowercase(right@)),
{
    let left_chars = characters(left);
    let right_chars = characters(right);
    if left_chars.len() != right_chars.len() {
        assert(ascii_lowercase(left@).len() != ascii_lowercase(right@).len());
        return false;
    }
    for i in 0..left_chars.len()
        invariant
            left_chars@ == left@,
            right_chars@ == right@,
            left_chars.len() == right_chars.len(),
            forall|j: int|
                0 <= j < i ==> ascii_lower(left_chars@[j]) == ascii_lower(right_chars@[j]),
    {
        if lower(left_chars[i]) != lower(right_chars[i]) {
            assert(ascii_lowercase(left@)[i as int] != ascii_lowercase(right@)[i as int]);
            return false;
        }
    }
    assert(ascii_lowercase(left@) == ascii_lowercase(right@));
    true
}

// ---------------------------------------------------------------------------
// Splitting and joining
// ---------------------------------------------------------------------------

/// The parts of `text` between its occurrences of `separator`. There is always at least one.
pub open spec fn split(text: Seq<char>, separator: char) -> Seq<Seq<char>>
    decreases text.len(),
{
    if text.len() == 0 {
        seq![seq![]]
    } else {
        let before = split(text.drop_last(), separator);
        if text.last() == separator {
            before.push(seq![])
        } else {
            before.drop_last().push(before.last().push(text.last()))
        }
    }
}

/// `parts`, each followed by the next with `separator` between them.
pub open spec fn join(parts: Seq<Seq<char>>, separator: Seq<char>) -> Seq<char>
    decreases parts.len(),
{
    if parts.len() == 0 {
        seq![]
    } else if parts.len() == 1 {
        parts[0]
    } else {
        join(parts.drop_last(), separator) + separator + parts.last()
    }
}

/// The parts of `text` between its occurrences of `separator`.
pub fn split_text(text: &str, separator: char) -> (parts: Vec<String>)
    ensures
        views(parts@) == split(text@, separator),
        parts.len() > 0,
{
    let chars = characters(text);
    let mut parts: Vec<String> = Vec::new();
    let mut part = String::new();
    assert(views(parts@).push(part@) == split(chars@.take(0), separator));
    for i in 0..chars.len()
        invariant
            chars@ == text@,
            views(parts@).push(part@) == split(chars@.take(i as int), separator),
    {
        let c: char = chars[i];
        assert(chars@.take(i + 1).drop_last() == chars@.take(i as int));
        let ghost before = views(parts@).push(part@);
        assert(before.drop_last() == views(parts@));
        if c == separator {
            parts.push(part);
            part = String::new();
            assert(views(parts@) == before);
        } else {
            part.push(c);
        }
    }
    assert(chars@.take(chars.len() as int) == text@);
    let ghost whole = views(parts@).push(part@);
    parts.push(part);
    assert(views(parts@) == whole);
    parts
}

/// `parts`, each followed by the next with `separator` between them.
pub fn join_texts(parts: &Vec<String>, separator: &str) -> (text: String)
    ensures
        text@ == join(views(parts@), separator@),
{
    let mut text = String::new();
    for i in 0..parts.len()
        invariant
            text@ == join(views(parts@).take(i as int), separator@),
    {
        if i > 0 {
            text.append(separator);
        }
        text.append(parts[i].as_str());
        assert(views(parts@).take(i + 1).drop_last() == views(parts@).take(i as int));
    }
    assert(views(parts@).take(parts.len() as int) == views(parts@));
    text
}

/// Splitting loses nothing: the parts joined by the separator are the text again, and no part
/// holds the separator.
pub proof fn split_then_join(text: Seq<char>, separator: char)
    ensures
        split(text, separator).len() > 0,
        join(split(text, separator), seq![separator]) == text,
        forall|i: int|
            0 <= i < split(text, separator).len() ==> !(#[trigger] split(
                text,
                separator,
            )[i]).contains(separator),
    decreases text.len(),
{
    let parts = split(text, separator);
    if text.len() == 0 {
    } else {
        let before = split(text.drop_last(), separator);
        split_then_join(text.drop_last(), separator);
        assert(text == text.drop_last().push(text.last()));
        if text.last() == separator {
            assert(parts.drop_last() == before);
            assert(join(parts, seq![separator]) == text);
        } else {
            assert(parts.drop_last() == before.drop_last());
            assert(join(parts, seq![separator]) == text);
            assert forall|i: int| 0 <= i < parts.len() implies !(#[trigger] parts[i]).contains(
                separator,
            ) by {
                if i < parts.len() - 1 {
                    assert(parts[i] == before[i]);
                } else {
                    assert forall|j: int| 0 <= j < parts[i].len() implies parts[i][j] != separator by {
                        if j < parts[i].len() - 1 {
                            assert(parts[i][j] == before.last()[j]);
                            assert(!before[before.len() - 1].contains(separator));
                        }
                    }
                }
            }
        }
    }
}

/// Splitting undoes joining: where no part holds the separator, the parts joined by it are split
/// into the same parts.
pub proof fn join_then_split(parts: Seq<Seq<char>>, separator: char)
    requires
        parts.len() > 0,
        forall|i: int| 0 <= i < parts.len() ==> !(#[trigger] parts[i]).contains(separator),
    ensures
        split(join(parts, seq![separator]), separator) == parts,
    decreases parts.len(),
{
    if parts.len() == 1 {
        lemma_split_plain(parts[0], separator);
        assert(parts == seq![parts[0]]);
    } else {
        let init = parts.drop_last();
        join_then_split(init, separator);
        let head = join(init, seq![separator]) + seq![separator];
        assert(head.drop_last() == join(init, seq![separator]));
        lemma_split_tail(head, parts.last(), separator);
        assert(split(head, separator) == init.push(seq![]));
        assert(init.push(seq![]).drop_last() == init);
        assert(seq![] + parts.last() == parts.last());
        assert(init.push(parts.last()) == parts);
    }
}

proof fn lemma_split_plain(text: Seq<char>, separator: char)
    requires
        !text.contains(separator),
    ensures
        split(text, separator) == seq![text],
{
    lemma_split_tail(seq![], text, separator);
    assert(seq![] + text == text);
    assert(seq![seq![] + text] == seq![text]);
}

/// Text without the separator lengthens the last part only.
proof fn lemma_split_tail(head: Seq<char>, tail: Seq<char>, separator: char)
    requires
        !tail.contains(separator),
    ensures
        split(head, separator).len() > 0,
        split(head + tail, separator) == split(head, separator).drop_last().push(
            split(head, separator).last() + tail,
        ),
    decreases tail.len(),
{
    split_then_join(head, separator);
    let parts = split(head, separator);
    if tail.len() == 0 {
        assert(head + tail == head);
        assert(parts.last() + tail == parts.last());
        assert(parts.drop_last().push(parts.last()) == parts);
    } else {
        let shorter = tail.drop_last();
        assert forall|i: int| 0 <= i < shorter.len() implies shorter[i] != separator by {
            assert(shorter[i] == tail[i]);
            assert(tail.contains(tail[i]));
        }
        lemma_split_tail(head, shorter, separator);
        assert((head + tail).drop_last() == head + shorter);
        assert(tail.contains(tail.last()));
        let before = split(head + shorter, separator);
        assert(before.drop_last() == parts.drop_last());
        assert((parts.last() + shorter).push(tail.last()) == parts.last() + tail);
    }
}

} // verus!
