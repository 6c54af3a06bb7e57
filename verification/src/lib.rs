use rand::rngs::StdRng;
use vstd::prelude::*;

pub mod client;
pub mod decimal;
pub mod event_type;
pub mod frame;
pub mod heartbeat;
pub mod outbound;
pub mod random;
pub mod registry;
pub mod server;
pub mod session;
pub mod shutdown;
pub mod subscrib_stream;
pub mod text;

pub use event_type::{
    BookTickerStream, DepthStream, DepthView, EventType, KLineStream, TickerStream, TradeStream,
};
pub use subscrib_stream::{
    ChannelId, Command, Method, ParseError, StreamName, SubscribStream, Symbol,
};

use event_type::{BookTickerDraw, DepthDraw, KLineDraw, TickerDraw, TradeDraw};

verus! {

/// The generator of one channel: the state of one of the five kinds.
#[derive(Debug, PartialEq, Eq)]
pub enum UpdataStream {
    Kline(KLineStream),
    Ticker(TickerStream),
    Trade(TradeStream),
    Depth(DepthStream),
    BookTicker(BookTickerStream),
}

/// A generator as a mathematical value.
#[verifier::ext_equal]
pub enum Generator {
    Kline(KLineStream),
    Ticker(TickerStream),
    Trade(TradeStream),
    Depth(DepthView),
    BookTicker(BookTickerStream),
}

impl View for UpdataStream {
    type V = Generator;

    open spec fn view(&self) -> Generator {
        match self {
            UpdataStream::Kline(stream) => Generator::Kline(*stream),
            UpdataStream::Ticker(stream) => Generator::Ticker(*stream),
            UpdataStream::Trade(stream) => Generator::Trade(*stream),
            UpdataStream::Depth(stream) => Generator::Depth(stream@),
            UpdataStream::BookTicker(stream) => Generator::BookTicker(*stream),
        }
    }
}

impl Generator {
    /// The generator of a channel of `kind` for `symbol` that has emitted
    /// nothing yet.
    pub open spec fn initial(kind: EventType, symbol: Symbol) -> Generator {
        match kind {
            EventType::Kline => Generator::Kline(KLineStream::initial(symbol)),
            EventType::Ticker => Generator::Ticker(TickerStream::initial(symbol)),
            EventType::Trade => Generator::Trade(TradeStream::initial(symbol)),
            EventType::Depth => Generator::Depth(DepthView::initial(symbol)),
            EventType::BookTicker => Generator::BookTicker(BookTickerStream::initial(symbol)),
        }
    }

    /// The kind of channel that this generator serves.
    pub open spec fn kind(self) -> EventType {
        match self {
            Generator::Kline(_) => EventType::Kline,
            Generator::Ticker(_) => EventType::Ticker,
            Generator::Trade(_) => EventType::Trade,
            Generator::Depth(_) => EventType::Depth,
            Generator::BookTicker(_) => EventType::BookTicker,
        }
    }

    /// The instrument of the updates.
    pub open spec fn symbol(self) -> Symbol {
        match self {
            Generator::Kline(stream) => stream.symbol,
            Generator::Ticker(stream) => stream.symbol,
            Generator::Trade(stream) => stream.symbol,
            Generator::Depth(stream) => stream.symbol,
            Generator::BookTicker(stream) => stream.symbol,
        }
    }

    /// The event time of the last update.
    pub open spec fn event_time(self) -> u64 {
        match self {
            Generator::Kline(stream) => stream.event_time,
            Generator::Ticker(stream) => stream.event_time,
            Generator::Trade(stream) => stream.event_time,
            Generator::Depth(stream) => stream.event_time,
            Generator::BookTicker(stream) => stream.event_time,
        }
    }

    /// The running count of the updates, for the kinds that keep one: the
    /// number of trades of a candle and of a ticker, the trade id, and the
    /// final update id of a depth update.
    pub open spec fn counter(self) -> Option<u64> {
        match self {
            Generator::Kline(stream) => Some(stream.number_of_trades),
            Generator::Ticker(stream) => Some(stream.number_of_trades),
            Generator::Trade(stream) => Some(stream.trade_id),
            Generator::Depth(stream) => Some(stream.final_update_id),
            Generator::BookTicker(_) => None,
        }
    }

    /// Every running count can still go up.
    pub open spec fn can_advance(self) -> bool {
        match self {
            Generator::Kline(stream) => stream.can_advance(),
            Generator::Ticker(stream) => stream.can_advance(),
            Generator::Trade(stream) => stream.can_advance(),
            Generator::Depth(stream) => stream.can_advance(),
            Generator::BookTicker(_) => true,
        }
    }

    /// `next` is this generator after one update at `time`, for some values
    /// of the ranges that the kind draws from.
    pub open spec fn advances_to(self, time: u64, next: Generator) -> bool {
        match (self, next) {
            (Generator::Kline(before), Generator::Kline(after)) => exists|draw: KLineDraw|
                draw.in_range() && after == #[trigger] before.advanced(time, draw),
            (Generator::Ticker(before), Generator::Ticker(after)) => exists|draw: TickerDraw|
                draw.in_range() && after == #[trigger] before.advanced(time, draw),
            (Generator::Trade(before), Generator::Trade(after)) => exists|draw: TradeDraw|
                draw.in_range() && after == #[trigger] before.advanced(time, draw),
            (Generator::Depth(before), Generator::Depth(after)) => exists|draw: DepthDraw|
                draw.in_range() && after == #[trigger] before.advanced(time, draw),
            (Generator::BookTicker(before), Generator::BookTicker(after)) => exists|
                draw: BookTickerDraw,
            |
                draw.in_range() && after == #[trigger] before.advanced(time, draw),
            _ => false,
        }
    }

    /// The engine timestamp of the last update, for the kinds that carry one
    /// apart from the event time: the engine timestamp of a depth update and
    /// the start of a candle.
    pub open spec fn skewed_timestamp(self) -> Option<u64> {
        match self {
            Generator::Kline(stream) => Some(stream.kline_start_time),
            Generator::Depth(stream) => Some(stream.engine_timestamp),
            _ => None,
        }
    }
}

/// One update keeps the kind and the instrument, sets the event time, moves
/// the running count up by exactly one, and leaves a skewed timestamp at or
/// before the event time.
pub proof fn lemma_update_facts(before: Generator, time: u64, after: Generator)
    requires
        before.can_advance(),
        before.advances_to(time, after),
    ensures
        after.kind() == before.kind(),
        after.symbol() == before.symbol(),
        after.event_time() == time,
        before.counter() matches Some(count) ==> after.counter() == Some((count + 1) as u64)
            && count + 1 <= u64::MAX,
        before.counter() is None ==> after.counter() is None,
        after.skewed_timestamp() matches Some(stamp) ==> stamp <= after.event_time(),
{
}

impl Clone for UpdataStream {
    fn clone(&self) -> (copy: UpdataStream)
        ensures
            copy@ == self@,
    {
        match self {
            UpdataStream::Kline(stream) => UpdataStream::Kline(*stream),
            UpdataStream::Ticker(stream) => UpdataStream::Ticker(*stream),
            UpdataStream::Trade(stream) => UpdataStream::Trade(*stream),
            UpdataStream::Depth(stream) => UpdataStream::Depth(stream.clone()),
            UpdataStream::BookTicker(stream) => UpdataStream::BookTicker(*stream),
        }
    }
}

impl UpdataStream {
    /// The kind of channel that this generator serves.
    pub fn kind(&self) -> (kind: EventType)
        ensures
            kind == self@.kind(),
    {
        match self {
            UpdataStream::Kline(_) => EventType::Kline,
            UpdataStream::Ticker(_) => EventType::Ticker,
            UpdataStream::Trade(_) => EventType::Trade,
            UpdataStream::Depth(_) => EventType::Depth,
            UpdataStream::BookTicker(_) => EventType::BookTicker,
        }
    }

    /// Whether every running count can still go up.
    pub fn can_advance(&self) -> (ok: bool)
        ensures
            ok == self@.can_advance(),
    {
        match self {
            UpdataStream::Kline(stream) => stream.number_of_trades < u64::MAX,
            UpdataStream::Ticker(stream) => stream.number_of_trades < u64::MAX,
            UpdataStream::Trade(stream) => stream.trade_id < u64::MAX,
            UpdataStream::Depth(stream) => stream.first_update_id < u64::MAX
                && stream.final_update_id < u64::MAX,
            UpdataStream::BookTicker(_) => true,
        }
    }

    /// Makes the next update of the channel at `time`, from values that it
    /// takes from the random source.
    pub fn update(&mut self, time: u64, rng: &mut StdRng)
        requires
            old(self)@.can_advance(),
        ensures
            old(self)@.advances_to(time, final(self)@),
    {
        match self {
            UpdataStream::Kline(stream) => stream.update(time, rng),
            UpdataStream::Ticker(stream) => stream.update(time, rng),
            UpdataStream::Trade(stream) => stream.update(time, rng),
            UpdataStream::Depth(stream) => stream.update(time, rng),
            UpdataStream::BookTicker(stream) => stream.update(time, rng),
        }
    }
}

/// The generator for the channel that `stream_name` names, before its first
/// update.
pub fn parse_stream_name(stream_name: StreamName) -> (stream: UpdataStream)
    ensures
        stream@ == Generator::initial(stream_name.stream, stream_name.symbol),
{
    match stream_name.stream {
        EventType::Kline => UpdataStream::Kline(KLineStream::new(stream_name.symbol)),
        EventType::Ticker => UpdataStream::Ticker(TickerStream::new(stream_name.symbol)),
        EventType::Trade => UpdataStream::Trade(TradeStream::new(stream_name.symbol)),
        EventType::Depth => UpdataStream::Depth(DepthStream::new(stream_name.symbol)),
        EventType::BookTicker => UpdataStream::BookTicker(
            BookTickerStream::new(stream_name.symbol),
        ),
    }
}

} // verus!
