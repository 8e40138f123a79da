//! Context sizes as they are written on a command line: validation and
//! conversion.

use crate::pattern::{regex_is_match, regex_match};
use vstd::prelude::*;
use vstd::string::*;

verus! {

/// The regular expression a context size has to match.
pub const NUMBER_PATTERN: &'static str = "^[1-9][0-9]*$";

/// Whether `text` is accepted as a context size.
pub open spec fn accepted_as_number(text: Seq<char>) -> bool {
    regex_match(NUMBER_PATTERN@, text) == Some(true)
}

/// The verdict on a value, given whether it matched the number pattern.
pub fn number_verdict(matched: Option<bool>) -> (verdict: Result<(), String>)
    ensures
        verdict is Ok <==> matched == Some(true),
        verdict is Err ==> verdict->Err_0@ == "The value is not numeric"@,
{
    match matched {
        Some(true) => Ok(()),
        _ => Err(String::from_str("The value is not numeric")),
    }
}

/// Validates a context size: it has to match [`NUMBER_PATTERN`].
pub fn is_number(v: String) -> (verdict: Result<(), String>)
    ensures
        verdict is Ok <==> accepted_as_number(v@),
        verdict is Err ==> verdict->Err_0@ == "The value is not numeric"@,
{
    number_verdict(regex_is_match(NUMBER_PATTERN, v.as_str()))
}

/// Whether `digit` is one of the characters `0` to `9`.
pub open spec fn is_digit(digit: char) -> bool {
    '0' <= digit <= '9'
}

/// Whether `text` is a decimal numeral: one digit or more, and digits only.
pub open spec fn is_decimal(text: Seq<char>) -> bool {
    &&& text.len() > 0
    &&& forall|index: int| 0 <= index < text.len() ==> is_digit(#[trigger] text[index])
}

/// The number a string of digits stands for.
pub open spec fn decimal_value(digits: Seq<char>) -> nat
    decreases digits.len(),
{
    if digits.len() == 0 {
        0
    } else {
        (decimal_value(digits.drop_last()) * 10 + (digits.last() as u32 - '0' as u32)) as nat
    }
}

/// The number a decimal numeral stands for, if it is one and the number can
/// be the size of something in memory.
pub open spec fn size_of_numeral(text: Seq<char>) -> Option<usize> {
    if is_decimal(text) && decimal_value(text) <= usize::MAX {
        Some(decimal_value(text) as usize)
    } else {
        None
    }
}

/// More digits never stand for a smaller number.
pub proof fn lemma_decimal_value_grows(digits: Seq<char>, length: int)
    requires
        0 <= length <= digits.len(),
        forall|index: int| 0 <= index < digits.len() ==> is_digit(#[trigger] digits[index]),
    ensures
        decimal_value(digits.take(length)) <= decimal_value(digits),
    decreases digits.len() - length,
{
    if length == digits.len() {
        assert(digits.take(length) =~= digits);
    } else {
        lemma_decimal_value_grows(digits, length + 1);
        let longer = digits.take(length + 1);
        assert(longer.drop_last() =~= digits.take(length));
        assert(is_digit(longer.last()));
    }
}

/// Reads a decimal numeral as a size.
pub fn parse_size(text: &str) -> (size: Option<usize>)
    ensures
        size == size_of_numeral(text@),
{
    let length = text.unicode_len();
    if length == 0 {
        return None;
    }
    let mut value: usize = 0;
    let mut index: usize = 0;
    while index < length
        invariant
            length == text@.len(),
            index <= length,
            forall|i: int| 0 <= i < index ==> is_digit(#[trigger] text@[i]),
            value == decimal_value(text@.take(index as int)),
        decreases length - index,
    {
        let digit = text.get_char(index);
        if digit < '0' || digit > '9' {
            return None;
        }
        let ghost longer = text@.take(index + 1);
        proof {
            assert(longer.drop_last() =~= text@.take(index as int));
            assert(longer.last() == digit);
        }
        let units = (digit as u32 - '0' as u32) as usize;
        let shifted = match value.checked_mul(10) {
            Some(shifted) => shifted,
            None => {
                proof {
                    lemma_numeral_too_large(text@, index + 1);
                }
                return None;
            },
        };
        value = match shifted.checked_add(units) {
            Some(sum) => sum,
            None => {
                proof {
                    lemma_numeral_too_large(text@, index + 1);
                }
                return None;
            },
        };
        index += 1;
    }
    proof {
        assert(text@.take(index as int) =~= text@);
    }
    Some(value)
}

/// A numeral one of whose prefixes already stands for more than a size can
/// hold stands for no size.
pub proof fn lemma_numeral_too_large(text: Seq<char>, length: int)
    requires
        0 <= length <= text.len(),
        decimal_value(text.take(length)) > usize::MAX,
    ensures
        size_of_numeral(text) == None::<usize>,
{
    if is_decimal(text) {
        lemma_decimal_value_grows(text, length);
    }
}

} // verus!
