use crate::decimal::Decimal;
use crate::event_type::{
    draw_identifier, draw_price, draw_quantity, identifier_in_range, is_identifier, is_price,
    is_quantity, price_in_range, quantity_in_range, EventType,
};
use crate::subscrib_stream::Symbol;
use rand::rngs::StdRng;
use vstd::prelude::*;

verus! {

/// What one update of a book-ticker channel takes from the random source.
#[derive(Clone, Copy, Debug, PartialEq, Eq, Structural)]
pub struct BookTickerDraw {
    pub inside_ask_price: Decimal,
    pub inside_ask_quantity: Decimal,
    pub inside_bid_price: Decimal,
    pub inside_bid_quantity: Decimal,
    pub update_id: u64,
}

impl BookTickerDraw {
    /// Every value lies in the range it is drawn from.
    pub open spec fn in_range(self) -> bool {
        &&& is_price(self.inside_ask_price)
        &&& is_quantity(self.inside_ask_quantity)
        &&& is_price(self.inside_bid_price)
        &&& is_quantity(self.inside_bid_quantity)
        &&& is_identifier(self.update_id)
    }

    /// Computes `in_range`.
    pub fn is_in_range(&self) -> (ok: bool)
        ensures
            ok == self.in_range(),
    {
        price_in_range(self.inside_ask_price) && quantity_in_range(self.inside_ask_quantity)
            && price_in_range(self.inside_bid_price) && quantity_in_range(
            self.inside_bid_quantity,
        ) && identifier_in_range(self.update_id)
    }

    /// Takes the values of one update from the random source.
    pub fn draw(rng: &mut StdRng) -> (draw: BookTickerDraw)
        ensures
            draw.in_range(),
    {
        let inside_ask_price = draw_price(rng);
        let inside_ask_quantity = draw_quantity(rng);
        let inside_bid_price = draw_price(rng);
        let inside_bid_quantity = draw_quantity(rng);
        let update_id = draw_identifier(rng);
        BookTickerDraw {
            inside_ask_price,
            inside_ask_quantity,
            inside_bid_price,
            inside_bid_quantity,
            update_id,
        }
    }
}

/// The state of a book-ticker channel, which is also the update it last
/// emitted.
#[derive(Clone, Copy, Debug, PartialEq, Eq, Structural)]
pub struct BookTickerStream {
    pub event_type: EventType,
    pub event_time: u64,
    pub symbol: Symbol,
    pub inside_ask_price: Decimal,
    pub inside_ask_quantity: Decimal,
    pub inside_bid_price: Decimal,
    pub inside_bid_quantity: Decimal,
    pub update_id: u64,
    pub engine_timestamp: u64,
}

impl BookTickerStream {
    /// The state of a channel that has emitted nothing yet.
    pub open spec fn initial(symbol: Symbol) -> BookTickerStream {
        BookTickerStream {
            event_type: EventType::BookTicker,
            event_time: 0,
            symbol,
            inside_ask_price: Decimal { thousandths: 0 },
            inside_ask_quantity: Decimal { thousandths: 0 },
            inside_bid_price: Decimal { thousandths: 0 },
            inside_bid_quantity: Decimal { thousandths: 0 },
            update_id: 0,
            engine_timestamp: 0,
        }
    }

    /// The state after one more update at `time` with the values of `draw`:
    /// both timestamps are `time`, and the update id is the one drawn.
    pub open spec fn advanced(self, time: u64, draw: BookTickerDraw) -> BookTickerStream {
        BookTickerStream {
            event_type: self.event_type,
            event_time: time,
            symbol: self.symbol,
            inside_ask_price: draw.inside_ask_price,
            inside_ask_quantity: draw.inside_ask_quantity,
            inside_bid_price: draw.inside_bid_price,
            inside_bid_quantity: draw.inside_bid_quantity,
            update_id: draw.update_id,
            engine_timestamp: time,
        }
    }

    /// A channel for `symbol` that has emitted nothing yet.
    pub fn new(symbol: Symbol) -> (stream: BookTickerStream)
        ensures
            stream == BookTickerStream::initial(symbol),
    {
        BookTickerStream {
            event_type: EventType::BookTicker,
            event_time: 0,
            symbol,
            inside_ask_price: Decimal::zero(),
            inside_ask_quantity: Decimal::zero(),
            inside_bid_price: Decimal::zero(),
            inside_bid_quantity: Decimal::zero(),
            update_id: 0,
            engine_timestamp: 0,
        }
    }

    /// Makes the next update from the values of `draw`.
    pub fn advance(&mut self, time: u64, draw: BookTickerDraw)
        requires
            draw.in_range(),
        ensures
            *final(self) == old(self).advanced(time, draw),
    {
        self.event_time = time;
        self.engine_timestamp = time;
        self.inside_ask_price = draw.inside_ask_price;
        self.inside_ask_quantity = draw.inside_ask_quantity;
        self.inside_bid_price = draw.inside_bid_price;
        self.inside_bid_quantity = draw.inside_bid_quantity;
        self.update_id = draw.update_id;
    }

    /// Makes the next update from values that it takes from the random
    /// source.
    pub fn update(&mut self, time: u64, rng: &mut StdRng)
        ensures
            exists|draw: BookTickerDraw|
                draw.in_range() && *final(self) == #[trigger] old(self).advanced(time, draw),
    {
        let draw = BookTickerDraw::draw(rng);
        self.advance(time, draw);
    }
}

} // verus!
