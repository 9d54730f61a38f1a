//! Texts and numbers.

use vstd::prelude::*;

use crate::decimal::all_digits;
use crate::decimal::decimal;
use crate::decimal::digits_value;
use crate::decimal::is_digit;
use crate::decimal::lemma_digits_value_grows;
use crate::decimal::parsed_i32;
use crate::decimal::signed_value;
use crate::decimal::unsigned_part;
use crate::text::ascii_lower;
use crate::text::ascii_lowercase;
use crate::text::join;
use crate::text::join_then_split;
use crate::text::optional_string;
use crate::text::optional_text;
use crate::text::split;
use crate::text::split_then_join;
use crate::text::views;

verus! {

/// The text of a string, or of a reference to one, is the text itself, and nothing has no text.
/// Lists of strings keep their order.
pub proof fn texts_are_taken_as_they_are(text: String, reference: &str, strings: Seq<String>)
    ensures
        optional_string(Some(text)) == Some(text@),
        optional_string(None) is None,
        optional_text(Some(reference)) == Some(reference@),
        optional_text(None) is None,
        views(strings).len() == strings.len(),
        forall|i: int| 0 <= i < strings.len() ==> #[trigger] views(strings)[i] == strings[i]@,
{
}

/// Lowering the case keeps the length, moves each of the letters from A to Z by 32 and keeps
/// every other character.
pub proof fn lowering_moves_capitals_only(text: Seq<char>)
    ensures
        ascii_lowercase(text).len() == text.len(),
        forall|i: int|
            #![trigger ascii_lowercase(text)[i]]
            0 <= i < text.len() ==> ascii_lowercase(text)[i] as int == text[i] as int + (if 'A'
                <= text[i] <= 'Z' {
                32int
            } else {
                0int
            }),
{
    assert forall|i: int|
        #![trigger ascii_lowercase(text)[i]]
        0 <= i < text.len() implies ascii_lowercase(text)[i] as int == text[i] as int + (if 'A'
        <= text[i] <= 'Z' {
        32int
    } else {
        0int
    }) by {
        assert(ascii_lowercase(text)[i] == ascii_lower(text[i]));
    }
}

/// Two texts are the same but for ASCII case exactly where they have the same length and, place
/// by place, the same character or the capital and the small form of one letter.
pub proof fn case_relates_the_forms_of_a_letter(one: Seq<char>, other: Seq<char>)
    ensures
        ascii_lowercase(one) == ascii_lowercase(other) <==> {
            &&& one.len() == other.len()
            &&& forall|i: int|
                #![trigger one[i]]
                #![trigger other[i]]
                0 <= i < one.len() ==> {
                    ||| one[i] == other[i]
                    ||| 'A' <= one[i] <= 'Z' && other[i] as int == one[i] as int + 32
                    ||| 'A' <= other[i] <= 'Z' && one[i] as int == other[i] as int + 32
                }
        },
{
    lowering_moves_capitals_only(one);
    lowering_moves_capitals_only(other);
    let a = ascii_lowercase(one);
    let b = ascii_lowercase(other);
    if a == b {
        assert forall|i: int| #![trigger one[i]] #![trigger other[i]] 0 <= i < one.len() implies {
            ||| one[i] == other[i]
            ||| 'A' <= one[i] <= 'Z' && other[i] as int == one[i] as int + 32
            ||| 'A' <= other[i] <= 'Z' && one[i] as int == other[i] as int + 32
        } by {
            assert(a[i] == b[i]);
        }
    } else if one.len() == other.len() && forall|i: int|
        #![trigger one[i]]
        #![trigger other[i]]
        0 <= i < one.len() ==> {
            ||| one[i] == other[i]
            ||| 'A' <= one[i] <= 'Z' && other[i] as int == one[i] as int + 32
            ||| 'A' <= other[i] <= 'Z' && one[i] as int == other[i] as int + 32
        } {
        assert forall|i: int| 0 <= i < a.len() implies a[i] == b[i] by {
            assert(one[i] == one[i] && other[i] == other[i]);
            assert(a[i] as int == b[i] as int);
        }
        assert(a == b);
    }
}

/// Joining nothing gives nothing, joining one part gives the part, and one part more adds the
/// separator and the part.
pub proof fn joining_part_by_part(parts: Seq<Seq<char>>, part: Seq<char>, separator: Seq<char>)
    ensures
        join(Seq::<Seq<char>>::empty(), separator).len() == 0,
        join(seq![part], separator) == part,
        parts.len() > 0 ==> join(parts.push(part), separator) == join(parts, separator) + separator
            + part,
{
    assert(parts.push(part).drop_last() == parts);
}

/// The first part of a text is what stands before its first separator, and its other parts are
/// those of what stands behind it.
pub proof fn splitting_off_the_first_part(first: Seq<char>, rest: Seq<char>, separator: char)
    requires
        !first.contains(separator),
    ensures
        split(first, separator) == seq![first],
        split(first + seq![separator] + rest, separator) == seq![first] + split(rest, separator),
{
    let one = seq![first];
    join_then_split(one, separator);
    joining_part_by_part(one, first, seq![separator]);
    split_then_join(rest, separator);
    let parts = seq![first] + split(rest, separator);
    assert forall|i: int| 0 <= i < parts.len() implies !(#[trigger] parts[i]).contains(
        separator,
    ) by {
        if i > 0 {
            assert(parts[i] == split(rest, separator)[i - 1]);
        }
    }
    lemma_join_first(first, split(rest, separator), seq![separator]);
    join_then_split(parts, separator);
}

proof fn lemma_join_first(first: Seq<char>, parts: Seq<Seq<char>>, separator: Seq<char>)
    requires
        parts.len() > 0,
    ensures
        join(seq![first] + parts, separator) == first + separator + join(parts, separator),
    decreases parts.len(),
{
    let whole = seq![first] + parts;
    assert(whole.drop_last() == seq![first] + parts.drop_last());
    if parts.len() == 1 {
        assert(whole.drop_last() == seq![first]);
        assert(join(whole.drop_last(), separator) == first);
        assert(join(whole, separator) == first + separator + parts[0]);
    } else {
        lemma_join_first(first, parts.drop_last(), separator);
        assert(join(whole, separator) == join(whole.drop_last(), separator) + separator
            + parts.last());
        assert(join(whole, separator) == first + separator + join(parts, separator));
    }
}

/// A number below ten is written as its digit, and writing a further digit behind a number makes
/// ten times the number and the digit.
pub proof fn writing_digit_by_digit(number: int, last: int)
    requires
        number >= 0,
        0 <= last < 10,
    ensures
        decimal(last) == seq![('0' as u32 + last) as char],
        number > 0 ==> decimal(10 * number + last) == decimal(number).push(
            ('0' as u32 + last) as char,
        ),
{
}

/// A negative number is written as a minus sign and the number without its sign.
pub proof fn writing_a_minus_sign(number: int)
    requires
        number > 0,
    ensures
        decimal(-number) == seq!['-'] + decimal(number),
{
}

/// One digit reads as its value, and a further digit behind a row of digits makes ten times the
/// number and the digit, as long as that fits in 32 bits.
pub proof fn reading_digit_by_digit(row: Seq<char>, last: int)
    requires
        row.len() > 0,
        forall|i: int| 0 <= i < row.len() ==> '0' <= #[trigger] row[i] <= '9',
        0 <= last < 10,
    ensures
        parsed_i32(seq![('0' as u32 + last) as char]) == Some(last as i32),
        match parsed_i32(row) {
            Some(number) => number >= 0 && parsed_i32(row.push(('0' as u32 + last) as char)) == (
            if 10 * number + last <= i32::MAX {
                Some((10 * number + last) as i32)
            } else {
                None
            }),
            None => parsed_i32(row.push(('0' as u32 + last) as char)) is None,
        },
{
    let c = ('0' as u32 + last) as char;
    let single = seq![c];
    let longer = row.push(c);
    assert(single.drop_last() == Seq::<char>::empty());
    assert(digits_value(single.drop_last()) == 0);
    assert(digits_value(single) == last);
    assert(is_digit(row[0]));
    assert(longer[0] == row[0]);
    assert(longer.drop_last() == row);
    assert(digits_value(longer) == 10 * digits_value(row) + last);
    lemma_digits_value_grows(row, 0);
    assert(all_digits(longer)) by {
        assert forall|i: int| 0 <= i < longer.len() implies is_digit(#[trigger] longer[i]) by {
            if i < row.len() {
                assert(longer[i] == row[i]);
            }
        }
    }
}

/// The same behind a minus sign, towards the least number of 32 bits. A plus sign changes nothing.
pub proof fn reading_behind_a_sign(row: Seq<char>, last: int)
    requires
        row.len() > 0,
        forall|i: int| 0 <= i < row.len() ==> '0' <= #[trigger] row[i] <= '9',
        0 <= last < 10,
    ensures
        parsed_i32(seq!['+'] + row) == parsed_i32(row),
        parsed_i32(seq!['-', ('0' as u32 + last) as char]) == Some((-last) as i32),
        match parsed_i32(seq!['-'] + row) {
            Some(number) => number <= 0 && parsed_i32(
                (seq!['-'] + row).push(('0' as u32 + last) as char),
            ) == (if 10 * number - last >= i32::MIN {
                Some((10 * number - last) as i32)
            } else {
                None
            }),
            None => parsed_i32((seq!['-'] + row).push(('0' as u32 + last) as char)) is None,
        },
{
    let c = ('0' as u32 + last) as char;
    assert(is_digit(row[0]));
    let plus = seq!['+'] + row;
    assert(unsigned_part(plus) == row);
    let single = seq!['-', c];
    assert(unsigned_part(single) == seq![c]);
    assert(seq![c].drop_last() == Seq::<char>::empty());
    assert(digits_value(seq![c].drop_last()) == 0);
    assert(digits_value(seq![c]) == last);
    let minus = seq!['-'] + row;
    assert(unsigned_part(minus) == row);
    let longer = minus.push(c);
    assert(unsigned_part(longer) == row.push(c));
    assert(row.push(c).drop_last() == row);
    assert(digits_value(row.push(c)) == 10 * digits_value(row) + last);
    lemma_digits_value_grows(row, 0);
    assert(all_digits(row.push(c))) by {
        assert forall|i: int| 0 <= i < row.len() + 1 implies is_digit(
            #[trigger] row.push(c)[i],
        ) by {
            if i < row.len() {
                assert(row.push(c)[i] == row[i]);
            }
        }
    }
    assert(signed_value(longer) == 10 * signed_value(minus) - last);
}

/// Nothing else is a number: not a text without digits, nor one that holds anything but digits
/// behind its sign.
pub proof fn nothing_else_is_a_number(text: Seq<char>, place: int)
    requires
        text.len() > 0 ==> 0 <= place < text.len(),
    ensures
        text.len() == 0 ==> parsed_i32(text) is None,
        text.len() == 1 && !('0' <= text[0] <= '9') ==> parsed_i32(text) is None,
        text.len() > 0 && !('0' <= text[place] <= '9') && (place > 0 || (text[0] != '+' && text[0]
            != '-')) ==> parsed_i32(text) is None,
{
    let row = unsigned_part(text);
    if text.len() > 0 && !('0' <= text[place] <= '9') && (place > 0 || (text[0] != '+' && text[0]
        != '-')) {
        let i = if row.len() < text.len() {
            place - 1
        } else {
            place
        };
        assert(row[i] == text[place]);
        assert(!is_digit(row[i]));
    }
    if text.len() == 1 && !('0' <= text[0] <= '9') && row.len() > 0 {
        assert(row[0] == text[0]);
        assert(!is_digit(row[0]));
    }
}

} // verus!
