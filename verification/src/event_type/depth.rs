use crate::decimal::Decimal;
use crate::event_type::{
    draw_jitter, draw_price, draw_quantity, is_jitter, is_price, is_quantity, price_in_range,
    quantity_in_range, set_back, skewed, EventType, JITTER_HIGH,
};
use crate::subscrib_stream::Symbol;
use rand::rngs::StdRng;
use vstd::prelude::*;

verus! {

/// One level of an order book.
#[derive(Clone, Copy, Debug, PartialEq, Eq, Structural)]
pub struct PriceLevel {
    pub price: Decimal,
    pub quantity: Decimal,
}

/// What one update of a depth channel takes from the random source: the skew
/// of the engine timestamp, the ask level, and how far the bid level lies
/// below it.
#[derive(Clone, Copy, Debug, PartialEq, Eq, Structural)]
pub struct DepthDraw {
    pub jitter: u64,
    pub ask_price: Decimal,
    pub ask_quantity: Decimal,
    pub price_gap: Decimal,
    pub quantity_gap: Decimal,
}

impl DepthDraw {
    /// Every value lies in the range it is drawn from.
    pub open spec fn in_range(self) -> bool {
        &&& is_jitter(self.jitter)
        &&& is_price(self.ask_price)
        &&& is_quantity(self.ask_quantity)
        &&& is_quantity(self.price_gap)
        &&& is_quantity(self.quantity_gap)
    }

    /// The ask level of the update.
    pub open spec fn ask(self) -> PriceLevel {
        PriceLevel { price: self.ask_price, quantity: self.ask_quantity }
    }

    /// The bid level of the update: the ask level less the two gaps.
    pub open spec fn bid(self) -> PriceLevel {
        PriceLevel {
            price: Decimal {
                thousandths: (self.ask_price.thousandths - self.price_gap.thousandths) as i64,
            },
            quantity: Decimal {
                thousandths: (self.ask_quantity.thousandths
                    - self.quantity_gap.thousandths) as i64,
            },
        }
    }

    /// Computes `in_range`.
    pub fn is_in_range(&self) -> (ok: bool)
        ensures
            ok == self.in_range(),
    {
        self.jitter < JITTER_HIGH && price_in_range(self.ask_price) && quantity_in_range(
            self.ask_quantity,
        ) && quantity_in_range(self.price_gap) && quantity_in_range(self.quantity_gap)
    }

    /// Takes the values of one update from the random source.
    pub fn draw(rng: &mut StdRng) -> (draw: DepthDraw)
        ensures
            draw.in_range(),
    {
        let jitter = draw_jitter(rng);
        let ask_price = draw_price(rng);
        let ask_quantity = draw_quantity(rng);
        let price_gap = draw_quantity(rng);
        let quantity_gap = draw_quantity(rng);
        DepthDraw { jitter, ask_price, ask_quantity, price_gap, quantity_gap }
    }
}

/// The state of a depth channel, which is also the update it last emitted.
#[derive(Debug, PartialEq, Eq)]
pub struct DepthStream {
    pub event_type: EventType,
    pub event_time: u64,
    pub symbol: Symbol,
    pub asks: Vec<PriceLevel>,
    pub bids: Vec<PriceLevel>,
    pub first_update_id: u64,
    pub final_update_id: u64,
    pub engine_timestamp: u64,
}

/// A depth channel's state as a mathematical value.
#[verifier::ext_equal]
pub struct DepthView {
    pub event_type: EventType,
    pub event_time: u64,
    pub symbol: Symbol,
    pub asks: Seq<PriceLevel>,
    pub bids: Seq<PriceLevel>,
    pub first_update_id: u64,
    pub final_update_id: u64,
    pub engine_timestamp: u64,
}

impl View for DepthStream {
    type V = DepthView;

    open spec fn view(&self) -> DepthView {
        DepthView {
            event_type: self.event_type,
            event_time: self.event_time,
            symbol: self.symbol,
            asks: self.asks@,
            bids: self.bids@,
            first_update_id: self.first_update_id,
            final_update_id: self.final_update_id,
            engine_timestamp: self.engine_timestamp,
        }
    }
}

impl DepthView {
    /// The state of a channel that has emitted nothing yet: one empty level
    /// on each side.
    pub open spec fn initial(symbol: Symbol) -> DepthView {
        let empty = PriceLevel {
            price: Decimal { thousandths: 0 },
            quantity: Decimal { thousandths: 0 },
        };
        DepthView {
            event_type: EventType::Depth,
            event_time: 0,
            symbol,
            asks: seq![empty],
            bids: seq![empty],
            first_update_id: 0,
            final_update_id: 0,
            engine_timestamp: 0,
        }
    }

    /// The state after one more update at `time` with the values of `draw`:
    /// both update ids go up by one, and the engine timestamp is `time` set
    /// back by the drawn skew.
    pub open spec fn advanced(self, time: u64, draw: DepthDraw) -> DepthView {
        DepthView {
            event_type: self.event_type,
            event_time: time,
            symbol: self.symbol,
            asks: seq![draw.ask()],
            bids: seq![draw.bid()],
            first_update_id: (self.first_update_id + 1) as u64,
            final_update_id: (self.final_update_id + 1) as u64,
            engine_timestamp: set_back(time, draw.jitter),
        }
    }

    /// Both update ids can still go up.
    pub open spec fn can_advance(self) -> bool {
        self.first_update_id < u64::MAX && self.final_update_id < u64::MAX
    }
}

impl Clone for DepthStream {
    fn clone(&self) -> (copy: DepthStream)
        ensures
            copy@ == self@,
    {
        DepthStream {
            event_type: self.event_type,
            event_time: self.event_time,
            symbol: self.symbol,
            asks: self.asks.clone(),
            bids: self.bids.clone(),
            first_update_id: self.first_update_id,
            final_update_id: self.final_update_id,
            engine_timestamp: self.engine_timestamp,
        }
    }
}

impl DepthStream {
    /// A channel for `symbol` that has emitted nothing yet.
    pub fn new(symbol: Symbol) -> (stream: DepthStream)
        ensures
            stream@ == DepthView::initial(symbol),
    {
        let empty = PriceLevel { price: Decimal::zero(), quantity: Decimal::zero() };
        let stream = DepthStream {
            event_type: EventType::Depth,
            event_time: 0,
            symbol,
            asks: vec![empty],
            bids: vec![empty],
            first_update_id: 0,
            final_update_id: 0,
            engine_timestamp: 0,
        };
        assert(stream@ =~= DepthView::initial(symbol));
        stream
    }

    /// Makes the next update from the values of `draw`.
    pub fn advance(&mut self, time: u64, draw: DepthDraw)
        requires
            old(self)@.can_advance(),
            draw.in_range(),
        ensures
            final(self)@ == old(self)@.advanced(time, draw),
            final(self).first_update_id == old(self).first_update_id + 1,
            final(self).final_update_id == old(self).final_update_id + 1,
            final(self).engine_timestamp <= final(self).event_time,
    {
        let ask = PriceLevel { price: draw.ask_price, quantity: draw.ask_quantity };
        let bid = PriceLevel {
            price: Decimal {
                thousandths: draw.ask_price.thousandths - draw.price_gap.thousandths,
            },
            quantity: Decimal {
                thousandths: draw.ask_quantity.thousandths - draw.quantity_gap.thousandths,
            },
        };
        self.event_time = time;
        self.engine_timestamp = skewed(time, draw.jitter);
        self.first_update_id = self.first_update_id + 1;
        self.final_update_id = self.final_update_id + 1;
        self.asks = vec![ask];
        self.bids = vec![bid];
        assert(self@ =~= old(self)@.advanced(time, draw));
    }

    /// Makes the next update from values that it takes from the random
    /// source.
    pub fn update(&mut self, time: u64, rng: &mut StdRng)
        requires
            old(self)@.can_advance(),
        ensures
            exists|draw: DepthDraw|
                draw.in_range() && final(self)@ == #[trigger] old(self)@.advanced(time, draw),
            final(self).first_update_id == old(self).first_update_id + 1,
            final(self).final_update_id == old(self).final_update_id + 1,
            final(self).engine_timestamp <= final(self).event_time,
    {
        let draw = DepthDraw::draw(rng);
        self.advance(time, draw);
    }
}

} // verus!
