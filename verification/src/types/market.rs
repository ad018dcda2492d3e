//! Market data.
use vstd::prelude::*;

use crate::double::Double;

verus! {

/// A decentralised exchange that quotes and executes swaps.
#[derive(Debug, Clone, Copy, PartialEq, Eq, Hash, Structural)]
pub enum DexName {
    Prjx,
    HyperSwap,
    Kitten,
}

impl DexName {
    /// The name under which the exchange is logged and measured.
    pub open spec fn name(self) -> Seq<char> {
        match self {
            DexName::Prjx => "prjx"@,
            DexName::HyperSwap => "hyperswap"@,
            DexName::Kitten => "kitten"@,
        }
    }

    /// Its name in logs and metrics.
    pub fn as_str(self) -> (text: &'static str)
        ensures
            text@ == self.name(),
    {
        match self {
            DexName::Prjx => "prjx",
            DexName::HyperSwap => "hyperswap",
            DexName::Kitten => "kitten",
        }
    }
}

/// The best quotes of one block, in token0 per token1.
#[derive(Debug, Clone)]
pub struct EvmPrice {
    pub buy_price: Double,
    pub sell_price: Double,
    pub block_number: u64,
    /// Local arrival time, Unix milliseconds.
    pub received_at: u64,
    /// The exchange with the best quote for selling token1.
    pub sell_dex: DexName,
    /// The exchange with the best quote for buying token1.
    pub buy_dex: DexName,
    /// The symbol of the pair.
    pub pair_id: String,
}

/// The best bid and ask of the order book.
#[derive(Debug, Clone)]
pub struct OrderBook {
    pub bid: Double,
    pub ask: Double,
    /// Server time, Unix milliseconds; 0 where the server gave none.
    pub created_at: u64,
    /// Local arrival time, Unix milliseconds.
    pub received_at: u64,
    /// The symbol of the pair.
    pub symbol: String,
}

/// One comparison of the two markets, kept for later study.
#[derive(Debug, Clone)]
pub struct PriceRecord {
    pub pair: String,
    pub evm_buy_price: Double,
    pub evm_sell_price: Double,
    pub liquid_ask: Double,
    pub liquid_bid: Double,
    pub sell_diff: Double,
    pub buy_diff: Double,
}

/// What a [`PriceRecord`] holds.
pub ghost struct PriceRecordView {
    pub pair: Seq<char>,
    pub evm_buy_price: Double,
    pub evm_sell_price: Double,
    pub liquid_ask: Double,
    pub liquid_bid: Double,
    pub sell_diff: Double,
    pub buy_diff: Double,
}

impl View for PriceRecord {
    type V = PriceRecordView;

    open spec fn view(&self) -> PriceRecordView {
        PriceRecordView {
            pair: self.pair@,
            evm_buy_price: self.evm_buy_price,
            evm_sell_price: self.evm_sell_price,
            liquid_ask: self.liquid_ask,
            liquid_bid: self.liquid_bid,
            sell_diff: self.sell_diff,
            buy_diff: self.buy_diff,
        }
    }
}

} // verus!
