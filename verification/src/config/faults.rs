//! What can be wrong with a configuration.
use vstd::prelude::*;

use crate::config::{HYPEREVM_USDC_ADDRESS, LIVE_TRADING_ACK};
use crate::decimal::faults::NumberFault;
use crate::text::join;

verus! {

/// The kinds of fault.
#[derive(Debug, Clone, Copy, PartialEq, Eq, Structural)]
pub enum Fault {
    /// The key has no value.
    Missing,
    /// The value of a key that must have one is blank.
    Blank,
    /// A setting that was read is blank.
    Empty,
    /// The value is not a number of the kind wanted.
    NotANumber(NumberFault),
    /// The value is neither `true` nor `false`.
    NotABoolean,
    /// Live trading was asked for without the confirmation.
    NotAcknowledged,
    /// A rate is infinite or "not a number".
    NotFinite,
    /// A rate is not in [0, 10000) basis points.
    OutOfRange,
    /// A rate is not in [-10000, 10000) basis points.
    OutOfSignedRange,
    /// A cost is negative, infinite or "not a number".
    NotACost,
    /// A count is zero.
    Zero,
    /// Not an address.
    NotAnAddress,
    /// The zero address.
    ZeroAddress,
    /// Only one of the two Kitten addresses is given.
    HalfConfigured,
    /// No pair is named.
    NoPairs,
    /// Two pairs have the same symbol.
    DuplicateSymbol,
    /// The two tokens of a pair are the same.
    SameTokens,
    /// token0 is not USDC.
    NotUsdc,
    /// token0 does not have the six decimals of USDC.
    NotSixDecimals,
    /// More than 38 decimals.
    TooManyDecimals,
    /// The order size is not a positive number below 10^15.
    BadOrderSize,
    /// The fee tier does not fit into 24 bits.
    BadFeeTier,
}

/// A fault, the key under which it was found, and the value that was found there, or what is wrong
/// with it, where the message shows it.
#[derive(Debug, Clone)]
pub struct ConfigError {
    pub fault: Fault,
    pub key: String,
    pub value: String,
}

/// What a [`ConfigError`] says.
pub ghost struct ConfigFault {
    pub fault: Fault,
    pub key: Seq<char>,
    pub value: Seq<char>,
}

impl View for ConfigError {
    type V = ConfigFault;

    open spec fn view(&self) -> ConfigFault {
        ConfigFault { fault: self.fault, key: self.key@, value: self.value@ }
    }
}

/// A fault that shows no value.
pub open spec fn fault_at(fault: Fault, key: Seq<char>) -> ConfigFault {
    ConfigFault { fault, key, value: Seq::empty() }
}

/// A fault of a key whose value is not repeated.
pub fn error_at(fault: Fault, key: &str) -> (error: ConfigError)
    ensures
        error@ == fault_at(fault, key@),
{
    proof {
        reveal_strlit("");
        assert(""@ =~= Seq::<char>::empty());
    }
    ConfigError { fault, key: key.to_owned(), value: "".to_owned() }
}

/// A fault of a key and its value.
pub fn error_of(fault: Fault, key: &str, value: &str) -> (error: ConfigError)
    ensures
        error@ == (ConfigFault { fault, key: key@, value: value@ }),
{
    ConfigError { fault, key: key.to_owned(), value: value.to_owned() }
}

impl ConfigFault {
    /// The message for people.
    pub open spec fn text(self) -> Seq<char> {
        match self.fault {
            Fault::Missing => "缺少环境变量 "@ + self.key,
            Fault::Blank => "环境变量 "@ + self.key + " 不能为空"@,
            Fault::Empty => self.key + " 不能为空"@,
            Fault::NotANumber(fault) => self.key + " 值无效 '"@ + self.value + "': "@ + fault.text(),
            Fault::NotABoolean => self.key + " 只接受 true 或 false，收到 '"@ + self.value + "'"@,
            Fault::NotAcknowledged => "DRY_RUN=false 时必须设置 LIVE_TRADING_ACK="@
                + LIVE_TRADING_ACK@,
            Fault::NotFinite => self.key + " 必须是有限数"@,
            Fault::OutOfRange => self.key + " 必须位于 [0, 10000) bps"@,
            Fault::OutOfSignedRange => self.key + " 必须位于 [-10000, 10000) bps"@,
            Fault::NotACost => self.key + " 必须是非负有限数"@,
            Fault::Zero => self.key + " 必须大于 0"@,
            Fault::NotAnAddress => self.key + " 地址无效: "@ + self.value,
            Fault::ZeroAddress => self.key + " 不能是零地址"@,
            Fault::HalfConfigured => "KITTEN_QUOTER 与 KITTEN_ROUTER 必须同时配置或同时留空"@,
            Fault::NoPairs => self.key + " 至少需要一个交易对"@,
            Fault::DuplicateSymbol => "交易对 symbol 重复: "@ + self.value,
            Fault::SameTokens => self.key + " 与 TOKEN1 不能相同"@,
            Fault::NotUsdc => self.key + " 必须是 HyperEVM USDC ("@ + HYPEREVM_USDC_ADDRESS@ + ")"@,
            Fault::NotSixDecimals => self.key + " 必须为 HyperEVM USDC 的 6 位精度"@,
            Fault::TooManyDecimals => self.key + " 不能超过 38"@,
            Fault::BadOrderSize => self.key + " 必须是正有限数且小于 1e15；该值表示 token1 数量"@,
            Fault::BadFeeTier => self.key + " 超出 uint24 范围"@,
        }
    }
}

impl ConfigError {
    /// The message for people.
    pub fn message(&self) -> (text: String)
        ensures
            text@ == self@.text(),
    {
        let key: &str = self.key.as_str();
        let value: &str = self.value.as_str();
        match self.fault {
            Fault::Missing => join("缺少环境变量 ", key),
            Fault::Blank => join(join("环境变量 ", key).as_str(), " 不能为空"),
            Fault::Empty => join(key, " 不能为空"),
            Fault::NotANumber(fault) => join(
                join(join(join(key, " 值无效 '").as_str(), value).as_str(), "': ").as_str(),
                fault.message(),
            ),
            Fault::NotABoolean => join(
                join(join(key, " 只接受 true 或 false，收到 '").as_str(), value).as_str(),
                "'",
            ),
            Fault::NotAcknowledged => join(
                "DRY_RUN=false 时必须设置 LIVE_TRADING_ACK=",
                LIVE_TRADING_ACK,
            ),
            Fault::NotFinite => join(key, " 必须是有限数"),
            Fault::OutOfRange => join(key, " 必须位于 [0, 10000) bps"),
            Fault::OutOfSignedRange => join(key, " 必须位于 [-10000, 10000) bps"),
            Fault::NotACost => join(key, " 必须是非负有限数"),
            Fault::Zero => join(key, " 必须大于 0"),
            Fault::NotAnAddress => join(join(key, " 地址无效: ").as_str(), value),
            Fault::ZeroAddress => join(key, " 不能是零地址"),
            Fault::HalfConfigured => "KITTEN_QUOTER 与 KITTEN_ROUTER 必须同时配置或同时留空".to_owned(),
            Fault::NoPairs => join(key, " 至少需要一个交易对"),
            Fault::DuplicateSymbol => join("交易对 symbol 重复: ", value),
            Fault::SameTokens => join(key, " 与 TOKEN1 不能相同"),
            Fault::NotUsdc => join(
                join(join(key, " 必须是 HyperEVM USDC (").as_str(), HYPEREVM_USDC_ADDRESS).as_str(),
                ")",
            ),
            Fault::NotSixDecimals => join(key, " 必须为 HyperEVM USDC 的 6 位精度"),
            Fault::TooManyDecimals => join(key, " 不能超过 38"),
            Fault::BadOrderSize => join(
                key,
                " 必须是正有限数且小于 1e15；该值表示 token1 数量",
            ),
            Fault::BadFeeTier => join(key, " 超出 uint24 范围"),
        }
    }
}

} // verus!
