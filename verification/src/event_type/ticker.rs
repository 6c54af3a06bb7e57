use crate::decimal::Decimal;
use crate::event_type::{
    draw_price, draw_quantity, is_price, is_quantity, price_in_range, quantity_in_range,
    EventType,
};
use crate::subscrib_stream::Symbol;
use rand::rngs::StdRng;
use vstd::prelude::*;

verus! {

/// What one update of a ticker channel takes from the random source.
#[derive(Clone, Copy, Debug, PartialEq, Eq, Structural)]
pub struct TickerDraw {
    pub first_price: Decimal,
    pub last_price: Decimal,
    pub high_price: Decimal,
    pub low_price: Decimal,
    pub base_asset_volume: Decimal,
    pub quote_asset_volume: Decimal,
}

impl TickerDraw {
    /// Every value lies in the range it is drawn from.
    pub open spec fn in_range(self) -> bool {
        &&& is_price(self.first_price)
        &&& is_price(self.last_price)
        &&& is_price(self.high_price)
        &&& is_price(self.low_price)
        &&& is_quantity(self.base_asset_volume)
        &&& is_quantity(self.quote_asset_volume)
    }

    /// Computes `in_range`.
    pub fn is_in_range(&self) -> (ok: bool)
        ensures
            ok == self.in_range(),
    {
        price_in_range(self.first_price) && price_in_range(self.last_price) && price_in_range(
            self.high_price,
        ) && price_in_range(self.low_price) && quantity_in_range(self.base_asset_volume)
            && quantity_in_range(self.quote_asset_volume)
    }

    /// Takes the values of one update from the random source.
    pub fn draw(rng: &mut StdRng) -> (draw: TickerDraw)
        ensures
            draw.in_range(),
    {
        let first_price = draw_price(rng);
        let last_price = draw_price(rng);
        let high_price = draw_price(rng);
        let low_price = draw_price(rng);
        let base_asset_volume = draw_quantity(rng);
        let quote_asset_volume = draw_quantity(rng);
        TickerDraw {
            first_price,
            last_price,
            high_price,
            low_price,
            base_asset_volume,
            quote_asset_volume,
        }
    }
}

/// The state of a ticker channel, which is also the update it last emitted.
#[derive(Clone, Copy, Debug, PartialEq, Eq, Structural)]
pub struct TickerStream {
    pub event_type: EventType,
    pub event_time: u64,
    pub symbol: Symbol,
    pub first_price: Decimal,
    pub last_price: Decimal,
    pub high_price: Decimal,
    pub low_price: Decimal,
    pub base_asset_volume: Decimal,
    pub quote_asset_volume: Decimal,
    pub number_of_trades: u64,
}

impl TickerStream {
    /// The state of a channel that has emitted nothing yet.
    pub open spec fn initial(symbol: Symbol) -> TickerStream {
        TickerStream {
            event_type: EventType::Ticker,
            event_time: 0,
            symbol,
            first_price: Decimal { thousandths: 0 },
            last_price: Decimal { thousandths: 0 },
            high_price: Decimal { thousandths: 0 },
            low_price: Decimal { thousandths: 0 },
            base_asset_volume: Decimal { thousandths: 0 },
            quote_asset_volume: Decimal { thousandths: 0 },
            number_of_trades: 0,
        }
    }

    /// The state after one more update at `time` with the values of `draw`:
    /// the number of trades goes up by one.
    pub open spec fn advanced(self, time: u64, draw: TickerDraw) -> TickerStream {
        TickerStream {
            event_type: self.event_type,
            event_time: time,
            symbol: self.symbol,
            first_price: draw.first_price,
            last_price: draw.last_price,
            high_price: draw.high_price,
            low_price: draw.low_price,
            base_asset_volume: draw.base_asset_volume,
            quote_asset_volume: draw.quote_asset_volume,
            number_of_trades: (self.number_of_trades + 1) as u64,
        }
    }

    /// The number of trades can still go up.
    pub open spec fn can_advance(self) -> bool {
        self.number_of_trades < u64::MAX
    }

    /// A channel for `symbol` that has emitted nothing yet.
    pub fn new(symbol: Symbol) -> (stream: TickerStream)
        ensures
            stream == TickerStream::initial(symbol),
    {
        TickerStream {
            event_type: EventType::Ticker,
            event_time: 0,
            symbol,
            first_price: Decimal::zero(),
            last_price: Decimal::zero(),
            high_price: Decimal::zero(),
            low_price: Decimal::zero(),
            base_asset_volume: Decimal::zero(),
            quote_asset_volume: Decimal::zero(),
            number_of_trades: 0,
        }
    }

    /// Makes the next update from the values of `draw`.
    pub fn advance(&mut self, time: u64, draw: TickerDraw)
        requires
            old(self).can_advance(),
            draw.in_range(),
        ensures
            *final(self) == old(self).advanced(time, draw),
            final(self).number_of_trades == old(self).number_of_trades + 1,
    {
        self.event_time = time;
        self.first_price = draw.first_price;
        self.last_price = draw.last_price;
        self.high_price = draw.high_price;
        self.low_price = draw.low_price;
        self.base_asset_volume = draw.base_asset_volume;
        self.quote_asset_volume = draw.quote_asset_volume;
        self.number_of_trades = self.number_of_trades + 1;
    }

    /// Makes the next update from values that it takes from the random
    /// source.
    pub fn update(&mut self, time: u64, rng: &mut StdRng)
        requires
            old(self).can_advance(),
        ensures
            exists|draw: TickerDraw|
                draw.in_range() && *final(self) == #[trigger] old(self).advanced(time, draw),
            final(self).number_of_trades == old(self).number_of_trades + 1,
    {
        let draw = TickerDraw::draw(rng);
        self.advance(time, draw);
    }
}

} // verus!
