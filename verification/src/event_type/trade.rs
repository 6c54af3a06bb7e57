use crate::decimal::Decimal;
use crate::event_type::{
    draw_flag, draw_identifier, draw_price, draw_quantity, identifier_in_range, is_identifier,
    is_price, is_quantity, price_in_range, quantity_in_range, EventType,
};
use crate::subscrib_stream::Symbol;
use rand::rngs::StdRng;
use vstd::prelude::*;

verus! {

/// What one update of a trade channel takes from the random source.
#[derive(Clone, Copy, Debug, PartialEq, Eq, Structural)]
pub struct TradeDraw {
    pub price: Decimal,
    pub quantity: Decimal,
    pub buyer_order_id: u64,
    pub seller_order_id: u64,
    pub is_buyer_the_maker: bool,
}

impl TradeDraw {
    /// Every value lies in the range it is drawn from.
    pub open spec fn in_range(self) -> bool {
        &&& is_price(self.price)
        &&& is_quantity(self.quantity)
        &&& is_identifier(self.buyer_order_id)
        &&& is_identifier(self.seller_order_id)
    }

    /// Computes `in_range`.
    pub fn is_in_range(&self) -> (ok: bool)
        ensures
            ok == self.in_range(),
    {
        price_in_range(self.price) && quantity_in_range(self.quantity) && identifier_in_range(
            self.buyer_order_id,
        ) && identifier_in_range(self.seller_order_id)
    }

    /// Takes the values of one update from the random source.
    pub fn draw(rng: &mut StdRng) -> (draw: TradeDraw)
        ensures
            draw.in_range(),
    {
        let price = draw_price(rng);
        let quantity = draw_quantity(rng);
        let buyer_order_id = draw_identifier(rng);
        let seller_order_id = draw_identifier(rng);
        let is_buyer_the_maker = draw_flag(rng);
        TradeDraw { price, quantity, buyer_order_id, seller_order_id, is_buyer_the_maker }
    }
}

/// The state of a trade channel, which is also the update it last emitted.
#[derive(Clone, Copy, Debug, PartialEq, Eq, Structural)]
pub struct TradeStream {
    pub event_type: EventType,
    pub event_time: u64,
    pub symbol: Symbol,
    pub price: Decimal,
    pub quantity: Decimal,
    pub buyer_order_id: u64,
    pub seller_order_id: u64,
    pub trade_id: u64,
    pub engine_timestamp: u64,
    pub is_buyer_the_maker: bool,
}

impl TradeStream {
    /// The state of a channel that has emitted nothing yet.
    pub open spec fn initial(symbol: Symbol) -> TradeStream {
        TradeStream {
            event_type: EventType::Trade,
            event_time: 0,
            symbol,
            price: Decimal { thousandths: 0 },
            quantity: Decimal { thousandths: 0 },
            buyer_order_id: 0,
            seller_order_id: 0,
            trade_id: 0,
            engine_timestamp: 0,
            is_buyer_the_maker: false,
        }
    }

    /// The state after one more update at `time` with the values of `draw`:
    /// the trade id goes up by one, both timestamps are `time`.
    pub open spec fn advanced(self, time: u64, draw: TradeDraw) -> TradeStream {
        TradeStream {
            event_type: self.event_type,
            event_time: time,
            symbol: self.symbol,
            price: draw.price,
            quantity: draw.quantity,
            buyer_order_id: draw.buyer_order_id,
            seller_order_id: draw.seller_order_id,
            trade_id: (self.trade_id + 1) as u64,
            engine_timestamp: time,
            is_buyer_the_maker: draw.is_buyer_the_maker,
        }
    }

    /// The trade id can still go up.
    pub open spec fn can_advance(self) -> bool {
        self.trade_id < u64::MAX
    }

    /// A channel for `symbol` that has emitted nothing yet.
    pub fn new(symbol: Symbol) -> (stream: TradeStream)
        ensures
            stream == TradeStream::initial(symbol),
    {
        TradeStream {
            event_type: EventType::Trade,
            event_time: 0,
            symbol,
            price: Decimal::zero(),
            quantity: Decimal::zero(),
            buyer_order_id: 0,
            seller_order_id: 0,
            trade_id: 0,
            engine_timestamp: 0,
            is_buyer_the_maker: false,
        }
    }

    /// Makes the next update from the values of `draw`.
    pub fn advance(&mut self, time: u64, draw: TradeDraw)
        requires
            old(self).can_advance(),
            draw.in_range(),
        ensures
            *final(self) == old(self).advanced(time, draw),
            final(self).trade_id == old(self).trade_id + 1,
    {
        self.event_time = time;
        self.engine_timestamp = time;
        self.price = draw.price;
        self.quantity = draw.quantity;
        self.buyer_order_id = draw.buyer_order_id;
        self.seller_order_id = draw.seller_order_id;
        self.trade_id = self.trade_id + 1;
        self.is_buyer_the_maker = draw.is_buyer_the_maker;
    }

    /// Makes the next update from values that it takes from the random
    /// source.
    pub fn update(&mut self, time: u64, rng: &mut StdRng)
        requires
            old(self).can_advance(),
        ensures
            exists|draw: TradeDraw|
                draw.in_range() && *final(self) == #[trigger] old(self).advanced(time, draw),
            final(self).trade_id == old(self).trade_id + 1,
    {
        let draw = TradeDraw::draw(rng);
        self.advance(time, draw);
    }
}

} // verus!
