//! Order books as they come over the wire.
use serde_json::Value;
use vstd::prelude::*;

use crate::decimal::parse_double;
use crate::double::Double;
use crate::text::{contains, same};
use crate::types::market::OrderBook;

verus! {

/// The channel that order books come on.
pub const CHANNEL_L2BOOK: &'static str = "l2Book";

/// The connection is given up when nothing came for this long, in seconds.
pub const IDLE_SECS: u64 = 30;

/// What a JSON value holds. A number is given by the unsigned 64-bit integer that it is, if it is
/// one.
pub ghost enum Json {
    Null,
    Boolean(bool),
    Number(Option<u64>),
    Text(Seq<char>),
    List(Seq<Json>),
    Table(Map<Seq<char>, Json>),
}

/// `serde_json::Value`, a JSON value.
#[verifier::external_type_specification]
#[verifier::external_body]
pub struct ExValue(serde_json::Value);

/// What a `serde_json::Value` holds.
pub uninterp spec fn json_in(value: Value) -> Json;

/// The JSON value that a text stands for, if it is valid JSON that is not nested too deeply.
pub uninterp spec fn json_of(text: Seq<char>) -> Option<Json>;

/// `serde_json::from_str` for a `Value`: what comes out depends on the text alone, and nothing
/// comes out where the text is not valid JSON.
#[verifier::external_body]
pub(crate) fn parse_json(text: &str) -> (result: Option<Value>)
    ensures
        match result {
            Some(value) => json_of(text@) == Some(json_in(value)),
            None => json_of(text@) is None,
        },
{
    match serde_json::from_str::<Value>(text) {
        Ok(value) => Some(value),
        Err(_) => None,
    }
}

/// `serde_json::Value::get` with a key: the value under the key of a table, nothing where the key
/// is missing or the value is no table.
#[verifier::external_body]
pub(crate) fn get_member<'a>(value: &'a Value, key: &str) -> (result: Option<&'a Value>)
    ensures
        match result {
            Some(found) => json_in(*value) is Table && json_in(*value)->Table_0.dom().contains(
                key@,
            ) && json_in(*found) == json_in(*value)->Table_0[key@],
            None => !(json_in(*value) is Table && json_in(*value)->Table_0.dom().contains(key@)),
        },
{
    value.get(key)
}

/// `serde_json::Value::get` with a position: the element of a list there, nothing where the list
/// is shorter or the value is no list.
#[verifier::external_body]
pub(crate) fn get_element<'a>(value: &'a Value, position: usize) -> (result: Option<&'a Value>)
    ensures
        match result {
            Some(found) => json_in(*value) is List && position < json_in(*value)->List_0.len()
                && json_in(*found) == json_in(*value)->List_0[position as int],
            None => !(json_in(*value) is List && position < json_in(*value)->List_0.len()),
        },
{
    value.get(position)
}

/// `serde_json::Value::as_str`: the text of a text, nothing for any other value.
#[verifier::external_body]
pub(crate) fn get_text<'a>(value: &'a Value) -> (result: Option<&'a str>)
    ensures
        match result {
            Some(text) => json_in(*value) == Json::Text(text@),
            None => !(json_in(*value) is Text),
        },
{
    value.as_str()
}

/// `serde_json::Value::as_u64`: the unsigned 64-bit integer that a number is, nothing where it is
/// none and for any other value.
#[verifier::external_body]
pub(crate) fn get_count(value: &Value) -> (result: Option<u64>)
    ensures
        result == match json_in(*value) {
            Json::Number(count) => count,
            _ => None,
        },
{
    value.as_u64()
}

impl Json {
    /// The value under a key, null where there is none.
    pub open spec fn member(self, key: Seq<char>) -> Json {
        if self is Table && self->Table_0.dom().contains(key) {
            self->Table_0[key]
        } else {
            Json::Null
        }
    }

    /// The element at a position, null where there is none.
    pub open spec fn element(self, position: int) -> Json {
        if self is List && 0 <= position < self->List_0.len() {
            self->List_0[position]
        } else {
            Json::Null
        }
    }

    /// The text of a text.
    pub open spec fn text(self) -> Option<Seq<char>> {
        match self {
            Json::Text(text) => Some(text),
            _ => None,
        }
    }

    /// The unsigned 64-bit integer that a number is.
    pub open spec fn count(self) -> Option<u64> {
        match self {
            Json::Number(count) => count,
            _ => None,
        }
    }

    /// The best price on a side of the book: 0 for bids, 1 for asks.
    pub open spec fn best_price(self, side: int) -> Option<Seq<char>> {
        self.member("data"@).member("levels"@).element(side).element(0).member("px"@).text()
    }
}

/// What an order book holds.
pub ghost struct BookView {
    pub bid: Double,
    pub ask: Double,
    pub created_at: u64,
    pub received_at: u64,
    pub symbol: Seq<char>,
}

impl View for OrderBook {
    type V = BookView;

    open spec fn view(&self) -> BookView {
        BookView {
            bid: self.bid,
            ask: self.ask,
            created_at: self.created_at,
            received_at: self.received_at,
            symbol: self.symbol@,
        }
    }
}

/// The order book that the parts of a message give: it must come on the right channel, and its
/// best prices must be positive numbers that do not cross.
pub open spec fn book_from(
    channel: Option<Seq<char>>,
    coin: Option<Seq<char>>,
    bid: Option<Seq<char>>,
    ask: Option<Seq<char>>,
    time: Option<u64>,
    received_at: u64,
) -> Option<BookView> {
    match (coin, bid, ask) {
        (Some(symbol), Some(bid_text), Some(ask_text)) => {
            match (
                crate::decimal::read_double(bid_text),
                crate::decimal::read_double(ask_text),
            ) {
                (Some(bid), Some(ask)) => if channel == Some(CHANNEL_L2BOOK@)
                    && crate::actors::pricing::sound_book(bid, ask) {
                    Some(
                        BookView {
                            bid,
                            ask,
                            created_at: match time {
                                Some(at) => at,
                                None => 0,
                            },
                            received_at,
                            symbol,
                        },
                    )
                } else {
                    None
                },
                _ => None,
            }
        },
        _ => None,
    }
}

/// The order book in a JSON message.
pub open spec fn book_in(message: Json, received_at: u64) -> Option<BookView> {
    book_from(
        message.member("channel"@).text(),
        message.member("data"@).member("coin"@).text(),
        message.best_price(0),
        message.best_price(1),
        message.member("data"@).member("time"@).count(),
        received_at,
    )
}

/// What an optional string slice says.
pub open spec fn slice_text(text: Option<&str>) -> Option<Seq<char>> {
    match text {
        Some(s) => Some(s@),
        None => None,
    }
}

/// Puts an order book together from the parts of a message.
pub fn book_from_parts(
    channel: Option<&str>,
    coin: Option<&str>,
    bid: Option<&str>,
    ask: Option<&str>,
    time: Option<u64>,
    received_at: u64,
) -> (result: Option<OrderBook>)
    ensures
        match result {
            Some(book) => book_from(
                slice_text(channel),
                slice_text(coin),
                slice_text(bid),
                slice_text(ask),
                time,
                received_at,
            ) == Some(book@),
            None => book_from(
                slice_text(channel),
                slice_text(coin),
                slice_text(bid),
                slice_text(ask),
                time,
                received_at,
            ) is None,
        },
{
    let right_channel: bool = match channel {
        Some(name) => same(name, CHANNEL_L2BOOK),
        None => false,
    };
    if !right_channel {
        return None;
    }
    let symbol: &str = match coin {
        Some(symbol) => symbol,
        None => {
            return None;
        },
    };
    let bid: Double = match bid {
        Some(text) => match parse_double(text) {
            Some(price) => price,
            None => {
                return None;
            },
        },
        None => {
            return None;
        },
    };
    let ask: Double = match ask {
        Some(text) => match parse_double(text) {
            Some(price) => price,
            None => {
                return None;
            },
        },
        None => {
            return None;
        },
    };
    if !(bid.is_positive() && ask.is_positive() && bid.is_at_most(ask)) {
        return None;
    }
    let created_at: u64 = match time {
        Some(at) => at,
        None => 0,
    };
    Some(OrderBook { bid, ask, created_at, received_at, symbol: symbol.to_owned() })
}

/// What a value that may be missing holds.
pub open spec fn optional_json(value: Option<&Value>) -> Json {
    match value {
        Some(v) => json_in(*v),
        None => Json::Null,
    }
}

fn member_of<'a>(value: Option<&'a Value>, key: &str) -> (result: Option<&'a Value>)
    ensures
        optional_json(result) == optional_json(value).member(key@),
{
    match value {
        Some(v) => get_member(v, key),
        None => None,
    }
}

fn element_of<'a>(value: Option<&'a Value>, position: usize) -> (result: Option<&'a Value>)
    ensures
        optional_json(result) == optional_json(value).element(position as int),
{
    match value {
        Some(v) => get_element(v, position),
        None => None,
    }
}

fn text_of<'a>(value: Option<&'a Value>) -> (result: Option<&'a str>)
    ensures
        slice_text(result) == optional_json(value).text(),
{
    match value {
        Some(v) => get_text(v),
        None => None,
    }
}

fn count_of(value: Option<&Value>) -> (result: Option<u64>)
    ensures
        result == optional_json(value).count(),
{
    match value {
        Some(v) => get_count(v),
        None => None,
    }
}

fn best_price_of<'a>(data: Option<&'a Value>, side: usize) -> (result: Option<&'a str>)
    ensures
        slice_text(result) == optional_json(data).member("levels"@).element(side as int).element(
            0,
        ).member("px"@).text(),
{
    let level: Option<&Value> = element_of(element_of(member_of(data, "levels"), side), 0);
    text_of(member_of(level, "px"))
}

/// Reads the order book in a JSON message.
pub fn read_orderbook(message: &Value, received_at: u64) -> (result: Option<OrderBook>)
    ensures
        match result {
            Some(book) => book_in(json_in(*message), received_at) == Some(book@),
            None => book_in(json_in(*message), received_at) is None,
        },
{
    let data: Option<&Value> = get_member(message, "data");
    assert(optional_json(data) == json_in(*message).member("data"@));
    let channel: Option<&Value> = get_member(message, "channel");
    assert(optional_json(channel) == json_in(*message).member("channel"@));
    book_from_parts(
        text_of(channel),
        text_of(member_of(data, "coin")),
        best_price_of(data, 0),
        best_price_of(data, 1),
        count_of(member_of(data, "time")),
        received_at,
    )
}

/// Reads the order book in a message; `received_at` is the time of arrival.
pub fn parse_orderbook(text: &str, received_at: u64) -> (result: Option<OrderBook>)
    ensures
        match (result, json_of(text@)) {
            (Some(book), Some(message)) => book_in(message, received_at) == Some(book@),
            (None, Some(message)) => book_in(message, received_at) is None,
            (book, None) => book is None,
        },
{
    match parse_json(text) {
        Some(message) => read_orderbook(&message, received_at),
        None => None,
    }
}

/// Whether a message that is no order book is to be reported: the server says that something went
/// wrong, such as a subscription that it refused.
pub fn is_server_error(text: &str) -> (result: bool)
    ensures
        result == crate::text::contains_text(text@, "\"channel\":\"error\""@),
{
    contains(text, "\"channel\":\"error\"")
}

/// Whether the watcher stops: a shutdown is under way and nobody needs order books any more, so
/// that a trade in progress can still be hedged.
pub fn may_stop(shutting_down: bool, receivers: usize) -> (result: bool)
    ensures
        result == (shutting_down && receivers == 0),
{
    shutting_down && receivers == 0
}

/// An order book that was read has positive prices that do not cross.
pub proof fn law_books_are_sound(message: Json, received_at: u64, book: BookView)
    requires
        book_in(message, received_at) == Some(book),
    ensures
        crate::actors::pricing::sound_book(book.bid, book.ask),
        book.received_at == received_at,
        message.member("channel"@).text() == Some(CHANNEL_L2BOOK@),
{
}

/// A book is read from its own places in a message: the bid from the first level of the first side,
/// the ask from that of the second, the symbol from the coin, and the server's time where there is
/// one. A message whose prices are positive and do not cross always gives a book.
pub proof fn law_books_are_read_from_their_places(
    message: Json,
    received_at: u64,
    coin: Seq<char>,
    bid_text: Seq<char>,
    ask_text: Seq<char>,
    bid: Double,
    ask: Double,
)
    requires
        message.member("channel"@) == Json::Text("l2Book"@),
        message.member("data"@).member("coin"@) == Json::Text(coin),
        message.member("data"@).member("levels"@).element(0).element(0).member("px"@)
            == Json::Text(bid_text),
        message.member("data"@).member("levels"@).element(1).element(0).member("px"@)
            == Json::Text(ask_text),
        crate::decimal::read_double(bid_text) == Some(bid),
        crate::decimal::read_double(ask_text) == Some(ask),
        bid.positive(),
        ask.positive(),
        bid.at_most(ask),
    ensures
        ({
            let book: Option<BookView> = book_in(message, received_at);
            let time: Json = message.member("data"@).member("time"@);
            &&& book is Some
            &&& book->Some_0.bid == bid
            &&& book->Some_0.ask == ask
            &&& book->Some_0.symbol == coin
            &&& book->Some_0.received_at == received_at
            &&& time is Number && time->Number_0 is Some ==> book->Some_0.created_at
                == time->Number_0->Some_0
            &&& !(time is Number) || time->Number_0 is None ==> book->Some_0.created_at == 0
        }),
{
}

} // verus!
