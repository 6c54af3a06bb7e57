use crate::decimal::Decimal;
use crate::event_type::{
    draw_flag, draw_jitter, draw_price, draw_quantity, is_jitter, is_price, is_quantity,
    price_in_range, quantity_in_range, set_back, skewed, EventType, JITTER_HIGH,
};
use crate::subscrib_stream::Symbol;
use rand::rngs::StdRng;
use vstd::prelude::*;

verus! {

/// What one update of a candle channel takes from the random source.
#[derive(Clone, Copy, Debug, PartialEq, Eq, Structural)]
pub struct KLineDraw {
    pub jitter: u64,
    pub open_price: Decimal,
    pub close_price: Decimal,
    pub high_price: Decimal,
    pub low_price: Decimal,
    pub base_asset_volume: Decimal,
    pub is_kline_closed: bool,
}

impl KLineDraw {
    /// Every value lies in the range it is drawn from.
    pub open spec fn in_range(self) -> bool {
        &&& is_jitter(self.jitter)
        &&& is_price(self.open_price)
        &&& is_price(self.close_price)
        &&& is_price(self.high_price)
        &&& is_price(self.low_price)
        &&& is_quantity(self.base_asset_volume)
    }

    /// Computes `in_range`.
    pub fn is_in_range(&self) -> (ok: bool)
        ensures
            ok == self.in_range(),
    {
        self.jitter < JITTER_HIGH && price_in_range(self.open_price) && price_in_range(
            self.close_price,
        ) && price_in_range(self.high_price) && price_in_range(self.low_price)
            && quantity_in_range(self.base_asset_volume)
    }

    /// Takes the values of one update from the random source.
    pub fn draw(rng: &mut StdRng) -> (draw: KLineDraw)
        ensures
            draw.in_range(),
    {
        let jitter = draw_jitter(rng);
        let open_price = draw_price(rng);
        let close_price = draw_price(rng);
        let high_price = draw_price(rng);
        let low_price = draw_price(rng);
        let base_asset_volume = draw_quantity(rng);
        let is_kline_closed = draw_flag(rng);
        KLineDraw {
            jitter,
            open_price,
            close_price,
            high_price,
            low_price,
            base_asset_volume,
            is_kline_closed,
        }
    }
}

/// The state of a candle channel, which is also the update it last emitted.
#[derive(Clone, Copy, Debug, PartialEq, Eq, Structural)]
pub struct KLineStream {
    pub event_type: EventType,
    pub event_time: u64,
    pub symbol: Symbol,
    pub kline_start_time: u64,
    pub kline_close_time: u64,
    pub open_price: Decimal,
    pub close_price: Decimal,
    pub high_price: Decimal,
    pub low_price: Decimal,
    pub base_asset_volume: Decimal,
    pub number_of_trades: u64,
    pub is_kline_closed: bool,
}

impl KLineStream {
    /// The state of a channel that has emitted nothing yet.
    pub open spec fn initial(symbol: Symbol) -> KLineStream {
        KLineStream {
            event_type: EventType::Kline,
            event_time: 0,
            symbol,
            kline_start_time: 0,
            kline_close_time: 0,
            open_price: Decimal { thousandths: 0 },
            close_price: Decimal { thousandths: 0 },
            high_price: Decimal { thousandths: 0 },
            low_price: Decimal { thousandths: 0 },
            base_asset_volume: Decimal { thousandths: 0 },
            number_of_trades: 0,
            is_kline_closed: false,
        }
    }

    /// The state after one more update at `time` with the values of `draw`:
    /// the candle closes at `time` and starts the drawn skew before it, and
    /// the number of trades goes up by one.
    pub open spec fn advanced(self, time: u64, draw: KLineDraw) -> KLineStream {
        KLineStream {
            event_type: self.event_type,
            event_time: time,
            symbol: self.symbol,
            kline_start_time: set_back(time, draw.jitter),
            kline_close_time: time,
            open_price: draw.open_price,
            close_price: draw.close_price,
            high_price: draw.high_price,
            low_price: draw.low_price,
            base_asset_volume: draw.base_asset_volume,
            number_of_trades: (self.number_of_trades + 1) as u64,
            is_kline_closed: draw.is_kline_closed,
        }
    }

    /// The number of trades can still go up.
    pub open spec fn can_advance(self) -> bool {
        self.number_of_trades < u64::MAX
    }

    /// A channel for `symbol` that has emitted nothing yet.
    pub fn new(symbol: Symbol) -> (stream: KLineStream)
        ensures
            stream == KLineStream::initial(symbol),
    {
        KLineStream {
            event_type: EventType::Kline,
            event_time: 0,
            symbol,
            kline_start_time: 0,
            kline_close_time: 0,
            open_price: Decimal::zero(),
            close_price: Decimal::zero(),
            high_price: Decimal::zero(),
            low_price: Decimal::zero(),
            base_asset_volume: Decimal::zero(),
            number_of_trades: 0,
            is_kline_closed: false,
        }
    }

    /// Makes the next update from the values of `draw`.
    pub fn advance(&mut self, time: u64, draw: KLineDraw)
        requires
            old(self).can_advance(),
            draw.in_range(),
        ensures
            *final(self) == old(self).advanced(time, draw),
            final(self).number_of_trades == old(self).number_of_trades + 1,
            final(self).kline_start_time <= final(self).event_time,
    {
        self.event_time = time;
        self.kline_start_time = skewed(time, draw.jitter);
        self.kline_close_time = time;
        self.open_price = draw.open_price;
        self.close_price = draw.close_price;
        self.high_price = draw.high_price;
        self.low_price = draw.low_price;
        self.base_asset_volume = draw.base_asset_volume;
        self.number_of_trades = self.number_of_trades + 1;
        self.is_kline_closed = draw.is_kline_closed;
    }

    /// Makes the next update from values that it takes from the random
    /// source.
    pub fn update(&mut self, time: u64, rng: &mut StdRng)
        requires
            old(self).can_advance(),
        ensures
            exists|draw: KLineDraw|
                draw.in_range() && *final(self) == #[trigger] old(self).advanced(time, draw),
            final(self).number_of_trades == old(self).number_of_trades + 1,
            final(self).kline_start_time <= final(self).event_time,
    {
        let draw = KLineDraw::draw(rng);
        self.advance(time, draw);
    }
}

} // verus!
