use crate::decimal::Decimal;
use crate::random::{draw_between, draw_ratio};
use crate::subscrib_stream::ParseError;
use crate::text::{dot_free, same_text};
use rand::rngs::StdRng;
use vstd::prelude::*;

pub mod book_ticker;
pub mod depth;
pub mod kline;
pub mod ticker;
pub mod trade;

pub use book_ticker::{BookTickerDraw, BookTickerStream};
pub use depth::{DepthDraw, DepthStream, DepthView, PriceLevel};
pub use kline::{KLineDraw, KLineStream};
pub use ticker::{TickerDraw, TickerStream};
pub use trade::{TradeDraw, TradeStream};

verus! {

/// The lowest price that is drawn, in thousandths.
pub const PRICE_LOW: u64 = 140_000;

/// The bound below which every drawn price lies, in thousandths.
pub const PRICE_HIGH: u64 = 190_000;

/// The bound below which every drawn quantity lies, in thousandths.
pub const QUANTITY_HIGH: u64 = 10_000;

/// The lowest identifier that is drawn.
pub const IDENTIFIER_LOW: u64 = 1_000_000;

/// The bound below which every drawn identifier lies.
pub const IDENTIFIER_HIGH: u64 = 9_999_999;

/// The bound below which the skew of an engine timestamp lies.
pub const JITTER_HIGH: u64 = 1000;

/// A price of the range that the generators draw from.
pub open spec fn is_price(price: Decimal) -> bool {
    PRICE_LOW <= price.thousandths < PRICE_HIGH
}

/// A quantity of the range that the generators draw from.
pub open spec fn is_quantity(quantity: Decimal) -> bool {
    0 <= quantity.thousandths < QUANTITY_HIGH
}

/// An identifier of the range that the generators draw from.
pub open spec fn is_identifier(id: u64) -> bool {
    IDENTIFIER_LOW <= id < IDENTIFIER_HIGH
}

/// A skew of the range that the generators draw from.
pub open spec fn is_jitter(jitter: u64) -> bool {
    jitter < JITTER_HIGH
}

/// The time `time` set back by `jitter`, and never before zero: a skewed
/// timestamp is never after the time it was skewed from.
pub open spec fn set_back(time: u64, jitter: u64) -> u64 {
    if jitter <= time {
        (time - jitter) as u64
    } else {
        0
    }
}

/// Computes `set_back`.
pub fn skewed(time: u64, jitter: u64) -> (stamp: u64)
    ensures
        stamp == set_back(time, jitter),
        stamp <= time,
{
    if jitter <= time {
        time - jitter
    } else {
        0
    }
}

/// Whether a price lies in the range that the generators draw from.
pub fn price_in_range(price: Decimal) -> (ok: bool)
    ensures
        ok == is_price(price),
{
    PRICE_LOW as i64 <= price.thousandths && price.thousandths < PRICE_HIGH as i64
}

/// Whether a quantity lies in the range that the generators draw from.
pub fn quantity_in_range(quantity: Decimal) -> (ok: bool)
    ensures
        ok == is_quantity(quantity),
{
    0 <= quantity.thousandths && quantity.thousandths < QUANTITY_HIGH as i64
}

/// Whether an identifier lies in the range that the generators draw from.
pub fn identifier_in_range(id: u64) -> (ok: bool)
    ensures
        ok == is_identifier(id),
{
    IDENTIFIER_LOW <= id && id < IDENTIFIER_HIGH
}

/// Draws a price.
pub fn draw_price(rng: &mut StdRng) -> (price: Decimal)
    ensures
        is_price(price),
{
    Decimal { thousandths: draw_between(rng, PRICE_LOW, PRICE_HIGH) as i64 }
}

/// Draws a quantity.
pub fn draw_quantity(rng: &mut StdRng) -> (quantity: Decimal)
    ensures
        is_quantity(quantity),
{
    Decimal { thousandths: draw_between(rng, 0, QUANTITY_HIGH) as i64 }
}

/// Draws an identifier.
pub fn draw_identifier(rng: &mut StdRng) -> (id: u64)
    ensures
        is_identifier(id),
{
    draw_between(rng, IDENTIFIER_LOW, IDENTIFIER_HIGH)
}

/// Draws the skew of an engine timestamp.
pub fn draw_jitter(rng: &mut StdRng) -> (jitter: u64)
    ensures
        is_jitter(jitter),
{
    draw_between(rng, 0, JITTER_HIGH)
}

/// Draws a flag that is as likely set as not.
pub fn draw_flag(rng: &mut StdRng) -> bool {
    draw_ratio(rng, 1, 2)
}

/// The kind of market-data event that a channel carries.
#[derive(Clone, Copy, Debug, PartialEq, Eq, Structural)]
pub enum EventType {
    Kline,
    Ticker,
    Trade,
    Depth,
    BookTicker,
}

impl EventType {
    /// The token that names this kind in a channel name and on the wire.
    pub open spec fn token(self) -> Seq<char> {
        match self {
            EventType::Kline => "kline"@,
            EventType::Ticker => "ticker"@,
            EventType::Trade => "trade"@,
            EventType::Depth => "depth"@,
            EventType::BookTicker => "bookTicker"@,
        }
    }

    /// The kind that a token names, if it names one.
    pub open spec fn of_token(token: Seq<char>) -> Option<EventType> {
        if token == "kline"@ {
            Some(EventType::Kline)
        } else if token == "ticker"@ {
            Some(EventType::Ticker)
        } else if token == "trade"@ {
            Some(EventType::Trade)
        } else if token == "depth"@ {
            Some(EventType::Depth)
        } else if token == "bookTicker"@ {
            Some(EventType::BookTicker)
        } else {
            None
        }
    }

    /// The token of this kind.
    pub fn as_str(&self) -> (name: &'static str)
        ensures
            name@ == self.token(),
    {
        match self {
            EventType::Kline => "kline",
            EventType::Ticker => "ticker",
            EventType::Trade => "trade",
            EventType::Depth => "depth",
            EventType::BookTicker => "bookTicker",
        }
    }

    /// Reads a kind from its token. Any other text is refused.
    pub fn parse(token: &str) -> (result: Result<EventType, ParseError>)
        ensures
            result == match EventType::of_token(token@) {
                Some(kind) => Ok::<EventType, ParseError>(kind),
                None => Err(ParseError::UnknownKind),
            },
    {
        if same_text(token, "kline") {
            Ok(EventType::Kline)
        } else if same_text(token, "ticker") {
            Ok(EventType::Ticker)
        } else if same_text(token, "trade") {
            Ok(EventType::Trade)
        } else if same_text(token, "depth") {
            Ok(EventType::Depth)
        } else if same_text(token, "bookTicker") {
            Ok(EventType::BookTicker)
        } else {
            Err(ParseError::UnknownKind)
        }
    }

    /// Each kind is read back from its own token, a token that names a kind
    /// is that kind's token, and no token holds a dot.
    pub proof fn lemma_tokens(kind: EventType)
        ensures
            EventType::of_token(kind.token()) == Some(kind),
            dot_free(kind.token()),
            kind.token().len() > 0,
    {
        reveal_strlit("kline");
        reveal_strlit("ticker");
        reveal_strlit("trade");
        reveal_strlit("depth");
        reveal_strlit("bookTicker");
        assert("kline"@.len() == 5 && "ticker"@.len() == 6 && "bookTicker"@.len() == 10);
        assert("trade"@[0] == 't' && "depth"@[0] == 'd' && "kline"@[0] == 'k');
    }
}

} // verus!
