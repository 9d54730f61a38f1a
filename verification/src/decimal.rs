//! Whole numbers in decimal notation.

use vstd::prelude::*;
use vstd::string::*;

use crate::text::characters;

verus! {

/// The decimal digit of `value`.
pub open spec fn digit(value: int) -> char
    recommends
        0 <= value < 10,
{
    ('0' as u32 + value) as char
}

/// `value` in decimal notation, without leading zeros.
pub open spec fn digits(value: nat) -> Seq<char>
    decreases value,
{
    if value < 10 {
        seq![digit(value as int)]
    } else {
        digits(value / 10).push(digit((value % 10) as int))
    }
}

/// `value` in decimal notation, with a minus sign where it is negative.
pub open spec fn decimal(value: int) -> Seq<char> {
    if value < 0 {
        seq!['-'] + digits((-value) as nat)
    } else {
        digits(value as nat)
    }
}

/// `value` in decimal notation.
pub fn unsigned_text(value: u64) -> (text: String)
    ensures
        text@ == decimal(value as int),
    decreases value,
{
    let last: char = ((value % 10) as u8 + 48) as char;
    let mut text = if value < 10 {
        String::new()
    } else {
        unsigned_text(value / 10)
    };
    text.push(last);
    assert(text@ == digits(value as nat));
    text
}

/// `value` in decimal notation, with a minus sign where it is negative.
pub fn signed_text(value: i32) -> (text: String)
    ensures
        text@ == decimal(value as int),
{
    if value < 0 {
        let mut text = String::new();
        text.push('-');
        text.append(unsigned_text((-(value as i64)) as u64).as_str());
        assert(text@ == decimal(value as int));
        text
    } else {
        unsigned_text(value as u64)
    }
}

/// Whether `c` is an ASCII digit.
pub open spec fn is_digit(c: char) -> bool {
    '0' <= c <= '9'
}

/// Whether `text` holds ASCII digits only.
pub open spec fn all_digits(text: Seq<char>) -> bool {
    forall|i: int| 0 <= i < text.len() ==> is_digit(#[trigger] text[i])
}

/// The number that a row of digits stands for; leading zeros count for nothing.
pub open spec fn digits_value(text: Seq<char>) -> int
    decreases text.len(),
{
    if text.len() == 0 {
        0
    } else {
        10 * digits_value(text.drop_last()) + (text.last() as u32 - '0' as u32)
    }
}

/// `text` without a leading plus or minus sign.
pub open spec fn unsigned_part(text: Seq<char>) -> Seq<char> {
    if text.len() > 0 && (text[0] == '+' || text[0] == '-') {
        text.drop_first()
    } else {
        text
    }
}

/// The number that an optional sign and a row of digits stand for.
pub open spec fn signed_value(text: Seq<char>) -> int {
    if text.len() > 0 && text[0] == '-' {
        -digits_value(unsigned_part(text))
    } else {
        digits_value(unsigned_part(text))
    }
}

/// A text is a number where it is an optional sign followed by one or more digits, and nothing
/// else, and the value fits in 32 bits.
pub open spec fn parsed_i32(text: Seq<char>) -> Option<i32> {
    let row = unsigned_part(text);
    if row.len() > 0 && all_digits(row) && i32::MIN <= signed_value(text) <= i32::MAX {
        Some(signed_value(text) as i32)
    } else {
        None
    }
}

/// Further digits do not make a number smaller.
pub proof fn lemma_digits_value_grows(text: Seq<char>, n: int)
    requires
        0 <= n <= text.len(),
        all_digits(text),
    ensures
        0 <= digits_value(text.take(n)) <= digits_value(text),
    decreases text.len(),
{
    if text.len() > 0 {
        let shorter = text.drop_last();
        assert(forall|i: int| 0 <= i < shorter.len() ==> shorter[i] == text[i]);
        if n < text.len() {
            assert(shorter.take(n) == text.take(n));
            lemma_digits_value_grows(shorter, n);
        } else {
            assert(text.take(n) == text);
            lemma_digits_value_grows(shorter, shorter.len() as int);
            assert(shorter.take(shorter.len() as int) == shorter);
        }
        assert(is_digit(text[text.len() - 1]));
    }
}

/// Reads a whole number: an optional sign followed by one or more digits, within 32 bits.
pub fn parse_i32(text: &str) -> (number: Option<i32>)
    ensures
        number == parsed_i32(text@),
{
    let chars = characters(text);
    let negative: bool = chars.len() > 0 && chars[0] == '-';
    let start: usize = if chars.len() > 0 && (chars[0] == '+' || chars[0] == '-') {
        1
    } else {
        0
    };
    let ghost row = unsigned_part(text@);
    assert(row == text@.skip(start as int));
    if start == chars.len() {
        return None;
    }
    let mut value: i64 = 0;
    for i in start..chars.len()
        invariant
            start <= chars.len(),
            chars@ == text@,
            row == unsigned_part(text@),
            row == text@.skip(start as int),
            forall|j: int| 0 <= j < i - start ==> is_digit(#[trigger] row[j]),
            value == digits_value(row.take(i - start)),
            0 <= value <= 0x8000_0000,
    {
        let c: char = chars[i];
        assert(c == row[i - start]);
        if c < '0' || '9' < c {
            assert(!all_digits(row));
            return None;
        }
        value = value * 10 + (c as u32 - 48) as i64;
        assert(row.take(i + 1 - start).drop_last() == row.take(i - start));
        if value > 0x8000_0000 {
            proof {
                if all_digits(row) {
                    lemma_digits_value_grows(row, i + 1 - start);
                }
            }
            return None;
        }
    }
    assert(row.take(chars.len() - start) == row);
    assert(all_digits(row));
    if negative {
        Some((-value) as i32)
    } else if value > 0x7fff_ffff {
        None
    } else {
        Some(value as i32)
    }
}

/// What is written in decimal notation is read back unchanged.
pub proof fn decimal_is_read_back(value: i32)
    ensures
        parsed_i32(decimal(value as int)) == Some(value),
{
    let text = decimal(value as int);
    if value < 0 {
        lemma_digits_are_read_back((-value) as nat);
        assert(text.drop_first() == digits((-value) as nat));
    } else {
        lemma_digits_are_read_back(value as nat);
        assert(is_digit(text[0]));
    }
}

proof fn lemma_digits_are_read_back(value: nat)
    ensures
        digits(value).len() > 0,
        all_digits(digits(value)),
        digits_value(digits(value)) == value,
    decreases value,
{
    let text = digits(value);
    let last = digit((value % 10) as int);
    assert(last as u32 - '0' as u32 == value % 10);
    assert(text.last() == last);
    if value < 10 {
        assert(text.drop_last() == Seq::<char>::empty());
        assert(digits_value(text.drop_last()) == 0);
    } else {
        lemma_digits_are_read_back(value / 10);
        assert(text.drop_last() == digits(value / 10));
        assert forall|i: int| 0 <= i < text.len() implies is_digit(#[trigger] text[i]) by {
            if i < text.len() - 1 {
                assert(text[i] == digits(value / 10)[i]);
            }
        }
    }
}

} // verus!
