//! Reading and checking single settings.
use vstd::prelude::*;

use crate::config::faults::{error_at, error_of};
use crate::config::{ConfigError, ConfigSource, Fault};
use crate::decimal::faults::{fault_of_count, fault_of_double};
use crate::decimal::{parse_double, parse_unsigned};
use crate::double::Double;
use crate::evm::address::{is_zero, parse_address};
use crate::text::{eq_ignore_case, trim};

verus! {

/// Whether a text is empty or white space alone.
pub open spec fn blank(s: Seq<char>) -> bool {
    crate::text::trimmed(s).len() == 0
}

/// A setting that must be there and not blank.
pub open spec fn required_text<S: ConfigSource>(source: &S, key: Seq<char>) -> Result<
    Seq<char>,
    crate::config::faults::ConfigFault,
> {
    match source.lookup(key) {
        None => Err(crate::config::faults::fault_at(Fault::Missing, key)),
        Some(value) => if blank(value) {
            Err(crate::config::faults::fault_at(Fault::Blank, key))
        } else {
            Ok(value)
        },
    }
}

/// A text as a double.
pub open spec fn double_in(key: Seq<char>, value: Seq<char>) -> Result<
    Double,
    crate::config::faults::ConfigFault,
> {
    match crate::decimal::read_double(value) {
        Some(number) => Ok(number),
        None => Err(
            crate::config::faults::ConfigFault {
                fault: Fault::NotANumber(crate::decimal::faults::double_fault(value)),
                key,
                value,
            },
        ),
    }
}

/// A text as a whole number of at most `max`.
pub open spec fn count_in(key: Seq<char>, value: Seq<char>, max: nat) -> Result<
    nat,
    crate::config::faults::ConfigFault,
> {
    let fault: crate::config::faults::ConfigFault = crate::config::faults::ConfigFault {
        fault: Fault::NotANumber(crate::decimal::faults::count_fault(value, max)),
        key,
        value,
    };
    match crate::decimal::read_unsigned(value) {
        Some(number) => if number <= max {
            Ok(number)
        } else {
            Err(fault)
        },
        None => Err(fault),
    }
}

/// The number under a key that must be there.
pub open spec fn required_double<S: ConfigSource>(source: &S, key: Seq<char>) -> Result<
    Double,
    crate::config::faults::ConfigFault,
> {
    match required_text(source, key) {
        Err(fault) => Err(fault),
        Ok(value) => double_in(key, value),
    }
}

/// The count under a key that must be there, at most `max`.
pub open spec fn required_count<S: ConfigSource>(source: &S, key: Seq<char>, max: nat) -> Result<
    nat,
    crate::config::faults::ConfigFault,
> {
    match required_text(source, key) {
        Err(fault) => Err(fault),
        Ok(value) => count_in(key, value, max),
    }
}

/// A setting with a default; a value that is there must be good.
pub open spec fn double_or<S: ConfigSource>(
    source: &S,
    key: Seq<char>,
    default: Double,
) -> Result<Double, crate::config::faults::ConfigFault> {
    match source.lookup(key) {
        None => Ok(default),
        Some(value) => double_in(key, value),
    }
}

/// The count under a key, at most `max`, or a default.
pub open spec fn count_or<S: ConfigSource>(
    source: &S,
    key: Seq<char>,
    max: nat,
    default: nat,
) -> Result<nat, crate::config::faults::ConfigFault> {
    match source.lookup(key) {
        None => Ok(default),
        Some(value) => count_in(key, value, max),
    }
}

/// `true` or `false` in letters of either case, white space around it aside.
pub open spec fn bool_or<S: ConfigSource>(source: &S, key: Seq<char>, default: bool) -> Result<
    bool,
    crate::config::faults::ConfigFault,
> {
    match source.lookup(key) {
        None => Ok(default),
        Some(value) => {
            let word: Seq<char> = crate::text::trimmed(value);
            if crate::text::same_ignoring_case(word, "true"@) {
                Ok(true)
            } else if crate::text::same_ignoring_case(word, "false"@) {
                Ok(false)
            } else {
                Err(
                    crate::config::faults::ConfigFault { fault: Fault::NotABoolean, key, value },
                )
            }
        },
    }
}

/// The text under a key, or a default.
pub open spec fn text_or<S: ConfigSource>(
    source: &S,
    key: Seq<char>,
    default: Seq<char>,
) -> Seq<char> {
    match source.lookup(key) {
        None => default,
        Some(value) => value,
    }
}

/// -10000
pub const MINUS_BASIS_POINTS_BITS: u64 = 0xc0c3_8800_0000_0000;

/// What is wrong with a rate in basis points, if anything.
pub open spec fn rate_fault(key: Seq<char>, value: Double, signed: bool) -> Option<
    crate::config::faults::ConfigFault,
> {
    let least: Double = if signed {
        Double { bits: MINUS_BASIS_POINTS_BITS }
    } else {
        Double::nought()
    };
    if !value.finite() {
        Some(crate::config::faults::fault_at(Fault::NotFinite, key))
    } else if !(least.at_most(value) && value.less(Double::basis_points())) {
        Some(
            crate::config::faults::fault_at(
                if signed {
                    Fault::OutOfSignedRange
                } else {
                    Fault::OutOfRange
                },
                key,
            ),
        )
    } else {
        None
    }
}

/// What is wrong with an address, if anything.
pub open spec fn address_fault(key: Seq<char>, value: Seq<char>) -> Option<
    crate::config::faults::ConfigFault,
> {
    match crate::evm::address::address_bytes(value) {
        None => Some(
            crate::config::faults::ConfigFault {
                fault: Fault::NotAnAddress,
                key,
                value: crate::evm::address::address_error(value),
            },
        ),
        Some(bytes) => if crate::evm::address::all_zero(bytes) {
            Some(crate::config::faults::fault_at(Fault::ZeroAddress, key))
        } else {
            None
        },
    }
}

/// What is wrong with an address that may be left out.
pub open spec fn optional_address_fault(key: Seq<char>, value: Seq<char>) -> Option<
    crate::config::faults::ConfigFault,
> {
    if value.len() == 0 {
        None
    } else {
        address_fault(key, value)
    }
}

/// Whether a string is empty or white space alone.
pub fn is_blank(s: &str) -> (result: bool)
    ensures
        result == blank(s@),
{
    trim(s).unicode_len() == 0
}

/// Reads a text that must be there and not be blank.
pub fn required<S: ConfigSource>(source: &S, key: &str) -> (result: Result<String, ConfigError>)
    ensures
        match result {
            Ok(value) => required_text(source, key@) == Ok::<
                Seq<char>,
                crate::config::faults::ConfigFault,
            >(value@),
            Err(error) => required_text(source, key@) == Err::<
                Seq<char>,
                crate::config::faults::ConfigFault,
            >(error@),
        },
{
    match source.get(key) {
        None => Err(error_at(Fault::Missing, key)),
        Some(value) => if is_blank(value.as_str()) {
            Err(error_at(Fault::Blank, key))
        } else {
            Ok(value)
        },
    }
}

fn read_double_in(key: &str, value: &str) -> (result: Result<Double, ConfigError>)
    ensures
        match result {
            Ok(number) => double_in(key@, value@) == Ok::<
                Double,
                crate::config::faults::ConfigFault,
            >(number),
            Err(error) => double_in(key@, value@) == Err::<
                Double,
                crate::config::faults::ConfigFault,
            >(error@),
        },
{
    match parse_double(value) {
        Some(number) => Ok(number),
        None => Err(error_of(Fault::NotANumber(fault_of_double(value)), key, value)),
    }
}

fn read_count_in(key: &str, value: &str, max: u64) -> (result: Result<u64, ConfigError>)
    ensures
        match result {
            Ok(number) => count_in(key@, value@, max as nat) == Ok::<
                nat,
                crate::config::faults::ConfigFault,
            >(number as nat) && number <= max,
            Err(error) => count_in(key@, value@, max as nat) == Err::<
                nat,
                crate::config::faults::ConfigFault,
            >(error@),
        },
{
    match parse_unsigned(value, max) {
        Some(number) => Ok(number),
        None => Err(error_of(Fault::NotANumber(fault_of_count(value, max)), key, value)),
    }
}

/// Reads a number that must be there.
pub fn parse_required_double<S: ConfigSource>(source: &S, key: &str) -> (result: Result<
    Double,
    ConfigError,
>)
    ensures
        match result {
            Ok(number) => required_double(source, key@) == Ok::<
                Double,
                crate::config::faults::ConfigFault,
            >(number),
            Err(error) => required_double(source, key@) == Err::<
                Double,
                crate::config::faults::ConfigFault,
            >(error@),
        },
{
    match required(source, key) {
        Ok(value) => read_double_in(key, value.as_str()),
        Err(error) => Err(error),
    }
}

/// Reads a count that must be there and be at most `max`.
pub fn parse_required_count<S: ConfigSource>(source: &S, key: &str, max: u64) -> (result: Result<
    u64,
    ConfigError,
>)
    ensures
        match result {
            Ok(number) => required_count(source, key@, max as nat) == Ok::<
                nat,
                crate::config::faults::ConfigFault,
            >(number as nat) && number <= max,
            Err(error) => required_count(source, key@, max as nat) == Err::<
                nat,
                crate::config::faults::ConfigFault,
            >(error@),
        },
{
    match required(source, key) {
        Ok(value) => read_count_in(key, value.as_str(), max),
        Err(error) => Err(error),
    }
}

/// Reads a number, or takes a default.
pub fn parse_double_or<S: ConfigSource>(source: &S, key: &str, default: Double) -> (result: Result<
    Double,
    ConfigError,
>)
    ensures
        match result {
            Ok(number) => double_or(source, key@, default) == Ok::<
                Double,
                crate::config::faults::ConfigFault,
            >(number),
            Err(error) => double_or(source, key@, default) == Err::<
                Double,
                crate::config::faults::ConfigFault,
            >(error@),
        },
{
    match source.get(key) {
        Some(value) => read_double_in(key, value.as_str()),
        None => Ok(default),
    }
}

/// Reads a count of at most `max`, or takes a default.
pub fn parse_count_or<S: ConfigSource>(source: &S, key: &str, max: u64, default: u64) -> (result:
    Result<u64, ConfigError>)
    requires
        default <= max,
    ensures
        match result {
            Ok(number) => count_or(source, key@, max as nat, default as nat) == Ok::<
                nat,
                crate::config::faults::ConfigFault,
            >(number as nat) && number <= max,
            Err(error) => count_or(source, key@, max as nat, default as nat) == Err::<
                nat,
                crate::config::faults::ConfigFault,
            >(error@),
        },
{
    match source.get(key) {
        Some(value) => read_count_in(key, value.as_str(), max),
        None => Ok(default),
    }
}

/// Reads a truth value, or takes a default.
pub fn parse_bool_or<S: ConfigSource>(source: &S, key: &str, default: bool) -> (result: Result<
    bool,
    ConfigError,
>)
    ensures
        match result {
            Ok(value) => bool_or(source, key@, default) == Ok::<
                bool,
                crate::config::faults::ConfigFault,
            >(value),
            Err(error) => bool_or(source, key@, default) == Err::<
                bool,
                crate::config::faults::ConfigFault,
            >(error@),
        },
{
    match source.get(key) {
        None => Ok(default),
        Some(value) => {
            let word: &str = trim(value.as_str());
            if eq_ignore_case(word, "true") {
                Ok(true)
            } else if eq_ignore_case(word, "false") {
                Ok(false)
            } else {
                Err(error_of(Fault::NotABoolean, key, value.as_str()))
            }
        },
    }
}

/// Reads a text, or takes a default.
pub fn string_or<S: ConfigSource>(source: &S, key: &str, default: &str) -> (value: String)
    ensures
        value@ == text_or(source, key@, default@),
{
    match source.get(key) {
        Some(value) => value,
        None => default.to_owned(),
    }
}

/// Tells whether a rate is within its range.
pub fn validate_bps(key: &str, value: Double, allow_negative: bool) -> (result: Result<
    (),
    ConfigError,
>)
    ensures
        match result {
            Ok(()) => rate_fault(key@, value, allow_negative) is None,
            Err(error) => rate_fault(key@, value, allow_negative) == Some(error@),
        },
{
    if !value.is_finite() {
        return Err(error_at(Fault::NotFinite, key));
    }
    let least: Double = if allow_negative {
        Double { bits: MINUS_BASIS_POINTS_BITS }
    } else {
        Double::nought()
    };
    if !(least.is_at_most(value) && value.is_less(Double::basis_points())) {
        return Err(
            error_at(
                if allow_negative {
                    Fault::OutOfSignedRange
                } else {
                    Fault::OutOfRange
                },
                key,
            ),
        );
    }
    Ok(())
}

/// Tells whether a text is an address other than zero.
pub fn validate_address(key: &str, value: &str) -> (result: Result<(), ConfigError>)
    ensures
        match result {
            Ok(()) => address_fault(key@, value@) is None,
            Err(error) => address_fault(key@, value@) == Some(error@),
        },
{
    match parse_address(value) {
        Err(error) => Err(error_of(Fault::NotAnAddress, key, error.as_str())),
        Ok(bytes) => if is_zero(&bytes) {
            Err(error_at(Fault::ZeroAddress, key))
        } else {
            Ok(())
        },
    }
}

/// Tells whether a text is empty, or an address other than zero.
pub fn validate_optional_address(key: &str, value: &str) -> (result: Result<(), ConfigError>)
    ensures
        match result {
            Ok(()) => optional_address_fault(key@, value@) is None,
            Err(error) => optional_address_fault(key@, value@) == Some(error@),
        },
{
    if value.unicode_len() == 0 {
        Ok(())
    } else {
        validate_address(key, value)
    }
}

} // verus!
