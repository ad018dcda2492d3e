//! Addresses on chain.
use alloy::primitives::Address;
use vstd::prelude::*;

verus! {

/// The number of bytes of an address.
pub const ADDRESS_BYTES: usize = 20;

/// Whether a character is a hexadecimal digit.
pub open spec fn is_hex(c: char) -> bool {
    let code: u32 = c as u32;
    ||| 48 <= code <= 57
    ||| 65 <= code <= 70
    ||| 97 <= code <= 102
}

/// The value of a hexadecimal digit.
pub open spec fn hex_value(c: char) -> int {
    let code: u32 = c as u32;
    if code <= 57 {
        code - 48
    } else if code <= 70 {
        code - 55
    } else {
        code - 87
    }
}

/// A hexadecimal text without its optional prefix.
pub open spec fn without_prefix(s: Seq<char>) -> Seq<char> {
    if s.len() >= 2 && s[0] == '0' && (s[1] == 'x' || s[1] == 'X') {
        s.skip(2)
    } else {
        s
    }
}

/// The bytes that a text stands for as an address: an optional `0x`, then forty hexadecimal
/// digits, two for each byte.
pub open spec fn address_bytes(s: Seq<char>) -> Option<Seq<u8>> {
    let digits: Seq<char> = without_prefix(s);
    if digits.len() == 40 && forall|i: int| 0 <= i < 40 ==> is_hex(#[trigger] digits[i]) {
        Some(
            Seq::new(
                ADDRESS_BYTES as nat,
                |i: int| (16 * hex_value(digits[2 * i]) + hex_value(digits[2 * i + 1])) as u8,
            ),
        )
    } else {
        None
    }
}

/// Whether all bytes are zero.
pub open spec fn all_zero(bytes: Seq<u8>) -> bool {
    forall|i: int| 0 <= i < bytes.len() ==> #[trigger] bytes[i] == 0
}

/// What is said of a text that is not an address.
pub uninterp spec fn address_error(text: Seq<char>) -> Seq<char>;

/// `alloy::primitives::Address` read from text by `str::parse`: it takes forty hexadecimal digits
/// in letters of either case, with or without `0x` or `0X` in front, and gives the bytes that
/// they spell; anything else is an error. What the error says depends on the text alone.
#[verifier::external_body]
pub(crate) fn parse_address(text: &str) -> (result: Result<Vec<u8>, String>)
    ensures
        match result {
            Ok(bytes) => address_bytes(text@) == Some(bytes@),
            Err(error) => address_bytes(text@) is None && error@ == address_error(text@),
        },
{
    match text.parse::<Address>() {
        Ok(address) => Ok(address.to_vec()),
        Err(error) => Err(error.to_string()),
    }
}

/// Whether two addresses are the same.
pub fn same_bytes(a: &Vec<u8>, b: &Vec<u8>) -> (same: bool)
    ensures
        same == (a@ == b@),
{
    if a.len() != b.len() {
        return false;
    }
    let mut i: usize = 0;
    while i < a.len()
        invariant
            i <= a@.len() == b@.len(),
            forall|j: int| 0 <= j < i ==> a@[j] == b@[j],
        decreases a@.len() - i,
    {
        if a[i] != b[i] {
            return false;
        }
        i = i + 1;
    }
    assert(a@ =~= b@);
    true
}

/// Whether an address is the zero address.
pub fn is_zero(bytes: &Vec<u8>) -> (zero: bool)
    ensures
        zero == all_zero(bytes@),
{
    let mut i: usize = 0;
    while i < bytes.len()
        invariant
            i <= bytes@.len(),
            forall|j: int| 0 <= j < i ==> #[trigger] bytes@[j] == 0,
        decreases bytes@.len() - i,
    {
        if bytes[i] != 0 {
            return false;
        }
        i = i + 1;
    }
    true
}

} // verus!
