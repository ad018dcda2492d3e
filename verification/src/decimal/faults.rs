//! Why a text is not a number.
use vstd::prelude::*;

use crate::decimal::is_digit_char;
use crate::text::characters;

verus! {

/// Why a text is not a number.
#[derive(Debug, Clone, Copy, PartialEq, Eq, Structural)]
pub enum NumberFault {
    EmptyFloat,
    InvalidFloat,
    EmptyInteger,
    /// A character that is no digit, or a sign alone.
    InvalidDigit,
    TooLarge,
}

impl NumberFault {
    /// What is said of it to people.
    pub open spec fn text(self) -> Seq<char> {
        match self {
            NumberFault::EmptyFloat => "cannot parse float from empty string"@,
            NumberFault::InvalidFloat => "invalid float literal"@,
            NumberFault::EmptyInteger => "cannot parse integer from empty string"@,
            NumberFault::InvalidDigit => "invalid digit found in string"@,
            NumberFault::TooLarge => "number too large to fit in target type"@,
        }
    }

    /// The message for people.
    pub fn message(self) -> (text: &'static str)
        ensures
            text@ == self.text(),
    {
        match self {
            NumberFault::EmptyFloat => "cannot parse float from empty string",
            NumberFault::InvalidFloat => "invalid float literal",
            NumberFault::EmptyInteger => "cannot parse integer from empty string",
            NumberFault::InvalidDigit => "invalid digit found in string",
            NumberFault::TooLarge => "number too large to fit in target type",
        }
    }
}

/// Why a text is no decimal number.
pub open spec fn double_fault(s: Seq<char>) -> NumberFault {
    if s.len() == 0 {
        NumberFault::EmptyFloat
    } else {
        NumberFault::InvalidFloat
    }
}

/// Why digits that follow `value` do not go on to a whole number of at most `max`: what comes
/// first, a character that is no digit or a digit that is one too many.
pub open spec fn first_fault(s: Seq<char>, value: nat, max: nat) -> NumberFault
    decreases s.len(),
{
    if s.len() == 0 || !crate::decimal::is_digit(s[0]) {
        NumberFault::InvalidDigit
    } else if 10 * value + crate::decimal::digit_value(s[0]) > max {
        NumberFault::TooLarge
    } else {
        first_fault(s.skip(1), 10 * value + crate::decimal::digit_value(s[0]), max)
    }
}

/// Why a text is no whole number of at most `max`.
pub open spec fn count_fault(s: Seq<char>, max: nat) -> NumberFault {
    if s.len() == 0 {
        NumberFault::EmptyInteger
    } else if s[0] == '+' {
        first_fault(s.skip(1), 0, max)
    } else {
        first_fault(s, 0, max)
    }
}

/// Says why a text is no decimal number.
pub fn fault_of_double(s: &str) -> (fault: NumberFault)
    ensures
        fault == double_fault(s@),
{
    if s.unicode_len() == 0 {
        NumberFault::EmptyFloat
    } else {
        NumberFault::InvalidFloat
    }
}

/// Says why a text is no whole number of at most `max`.
pub fn fault_of_count(s: &str, max: u64) -> (fault: NumberFault)
    ensures
        fault == count_fault(s@, max as nat),
{
    let chars: Vec<char> = characters(s);
    if chars.len() == 0 {
        return NumberFault::EmptyInteger;
    }
    let mut i: usize = if chars[0] == '+' {
        1
    } else {
        0
    };
    let mut value: u64 = 0;
    assert(s@.skip(0) =~= s@);
    while i < chars.len()
        invariant
            i <= chars@.len(),
            chars@ == s@,
            value <= max,
            first_fault(s@.skip(i as int), value as nat, max as nat) == count_fault(
                s@,
                max as nat,
            ),
        decreases chars@.len() - i,
    {
        let c: char = chars[i];
        assert(s@.skip(i as int)[0] == c);
        assert(s@.skip(i as int).skip(1) =~= s@.skip(i + 1));
        if !is_digit_char(c) {
            return NumberFault::InvalidDigit;
        }
        let next: u128 = value as u128 * 10 + (c as u32 - 48) as u128;
        if next > max as u128 {
            return NumberFault::TooLarge;
        }
        value = next as u64;
        i = i + 1;
    }
    NumberFault::InvalidDigit
}

} // verus!
