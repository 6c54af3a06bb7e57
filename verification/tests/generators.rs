use backpack::decimal::{numeral_text, Decimal};
use backpack::event_type::{
    draw_flag, draw_identifier, draw_jitter, draw_price, draw_quantity, identifier_in_range,
    price_in_range, quantity_in_range, skewed, BookTickerDraw, DepthDraw, KLineDraw, PriceLevel,
    TickerDraw, TradeDraw,
};
use backpack::subscrib_stream::{StreamName, Symbol};
use backpack::{
    parse_stream_name, BookTickerStream, DepthStream, EventType, KLineStream, TickerStream,
    TradeStream, UpdataStream,
};
use rand::rngs::StdRng;
use rand::SeedableRng;

fn dec(thousandths: i64) -> Decimal {
    Decimal { thousandths }
}

#[test]
fn decimal_text_has_three_fractional_digits() {
    assert_eq!(dec(0).to_string(), "0.000");
    assert_eq!(dec(1).to_string(), "0.001");
    assert_eq!(dec(20).to_string(), "0.020");
    assert_eq!(dec(300).to_string(), "0.300");
    assert_eq!(dec(1000).to_string(), "1.000");
    assert_eq!(dec(156_420).to_string(), "156.420");
    assert_eq!(dec(18_680).to_string(), "18.680");
    assert_eq!(dec(189_999).to_string(), "189.999");
    assert_eq!(dec(10_007).to_string(), "10.007");
}

#[test]
fn decimal_text_of_numbers_below_zero() {
    assert_eq!(dec(-1).to_string(), "-0.001");
    assert_eq!(dec(-9_999).to_string(), "-9.999");
    assert_eq!(dec(-12_050).to_string(), "-12.050");
}

#[test]
fn decimal_text_at_the_ends_of_the_range() {
    assert_eq!(dec(i64::MAX).to_string(), "9223372036854775.807");
    assert_eq!(dec(i64::MIN).to_string(), "-9223372036854775.808");
    assert_eq!(Decimal::zero(), dec(0));
}

#[test]
fn numeral_text_is_the_decimal_numeral() {
    assert_eq!(numeral_text(0), "0");
    assert_eq!(numeral_text(7), "7");
    assert_eq!(numeral_text(10), "10");
    assert_eq!(numeral_text(1_000_000), "1000000");
    assert_eq!(numeral_text(9_999_998), "9999998");
    assert_eq!(numeral_text(111_063_114_377_265_150), "111063114377265150");
    assert_eq!(numeral_text(u64::MAX), "18446744073709551615");
    for n in [0u64, 9, 10, 99, 100, 101, 12_345, 1 << 40] {
        assert_eq!(numeral_text(n), n.to_string());
    }
}

#[test]
fn skewed_timestamp_is_never_after_the_time() {
    assert_eq!(skewed(1_000_000, 250), 999_750);
    assert_eq!(skewed(1_000_000, 0), 1_000_000);
    assert_eq!(skewed(999, 999), 0);
    assert_eq!(skewed(5, 10), 0);
    assert_eq!(skewed(0, 999), 0);
    assert_eq!(skewed(u64::MAX, 999), u64::MAX - 999);
}

#[test]
fn range_checks_take_the_low_end_and_refuse_the_high_end() {
    assert!(price_in_range(dec(140_000)));
    assert!(price_in_range(dec(189_999)));
    assert!(!price_in_range(dec(139_999)));
    assert!(!price_in_range(dec(190_000)));
    assert!(quantity_in_range(dec(0)));
    assert!(quantity_in_range(dec(9_999)));
    assert!(!quantity_in_range(dec(-1)));
    assert!(!quantity_in_range(dec(10_000)));
    assert!(identifier_in_range(1_000_000));
    assert!(identifier_in_range(9_999_998));
    assert!(!identifier_in_range(999_999));
    assert!(!identifier_in_range(9_999_999));
}

#[test]
fn draws_lie_in_their_ranges_and_vary() {
    let mut rng = StdRng::seed_from_u64(11);
    let mut prices = Vec::new();
    let mut quantities = Vec::new();
    let mut identifiers = Vec::new();
    let mut jitters = Vec::new();
    for _ in 0..500 {
        let price = draw_price(&mut rng);
        assert!(price_in_range(price));
        prices.push(price.thousandths);
        let quantity = draw_quantity(&mut rng);
        assert!(quantity_in_range(quantity));
        quantities.push(quantity.thousandths);
        let id = draw_identifier(&mut rng);
        assert!(identifier_in_range(id));
        identifiers.push(id);
        let jitter = draw_jitter(&mut rng);
        assert!(jitter < 1000);
        jitters.push(jitter);
    }
    for drawn in [&prices, &quantities] {
        assert!(drawn.iter().any(|value| *value != drawn[0]));
    }
    for drawn in [&identifiers, &jitters] {
        assert!(drawn.iter().any(|value| *value != drawn[0]));
    }
    assert!(prices.iter().any(|price| *price != 140_000));
    assert!(identifiers.iter().any(|id| *id != 1_000_000));
}

#[test]
fn drawn_flags_are_set_and_unset() {
    let mut rng = StdRng::seed_from_u64(5);
    let mut set = 0;
    for _ in 0..1000 {
        if draw_flag(&mut rng) {
            set += 1;
        }
    }
    assert!(set > 300);
    assert!(set < 700);
}

#[test]
fn the_same_seed_gives_the_same_draws() {
    let mut first = StdRng::seed_from_u64(42);
    let mut second = StdRng::seed_from_u64(42);
    for _ in 0..20 {
        assert_eq!(TradeDraw::draw(&mut first), TradeDraw::draw(&mut second));
        assert_eq!(DepthDraw::draw(&mut first), DepthDraw::draw(&mut second));
    }
}

#[test]
fn new_trade_stream_is_neutral() {
    let stream = TradeStream::new(Symbol::SolUsdc);
    assert_eq!(
        stream,
        TradeStream {
            event_type: EventType::Trade,
            event_time: 0,
            symbol: Symbol::SolUsdc,
            price: dec(0),
            quantity: dec(0),
            buyer_order_id: 0,
            seller_order_id: 0,
            trade_id: 0,
            engine_timestamp: 0,
            is_buyer_the_maker: false,
        }
    );
}

#[test]
fn new_depth_stream_is_neutral() {
    let stream = DepthStream::new(Symbol::SolUsd);
    let empty = PriceLevel { price: dec(0), quantity: dec(0) };
    assert_eq!(
        stream,
        DepthStream {
            event_type: EventType::Depth,
            event_time: 0,
            symbol: Symbol::SolUsd,
            asks: vec![empty],
            bids: vec![empty],
            first_update_id: 0,
            final_update_id: 0,
            engine_timestamp: 0,
        }
    );
}

#[test]
fn new_kline_stream_is_neutral() {
    let stream = KLineStream::new(Symbol::SolUsd);
    assert_eq!(
        stream,
        KLineStream {
            event_type: EventType::Kline,
            event_time: 0,
            symbol: Symbol::SolUsd,
            kline_start_time: 0,
            kline_close_time: 0,
            open_price: dec(0),
            close_price: dec(0),
            high_price: dec(0),
            low_price: dec(0),
            base_asset_volume: dec(0),
            number_of_trades: 0,
            is_kline_closed: false,
        }
    );
}

#[test]
fn new_ticker_stream_is_neutral() {
    let stream = TickerStream::new(Symbol::SolUsdc);
    assert_eq!(
        stream,
        TickerStream {
            event_type: EventType::Ticker,
            event_time: 0,
            symbol: Symbol::SolUsdc,
            first_price: dec(0),
            last_price: dec(0),
            high_price: dec(0),
            low_price: dec(0),
            base_asset_volume: dec(0),
            quote_asset_volume: dec(0),
            number_of_trades: 0,
        }
    );
}

#[test]
fn new_book_ticker_stream_is_neutral() {
    let stream = BookTickerStream::new(Symbol::SolUsd);
    assert_eq!(
        stream,
        BookTickerStream {
            event_type: EventType::BookTicker,
            event_time: 0,
            symbol: Symbol::SolUsd,
            inside_ask_price: dec(0),
            inside_ask_quantity: dec(0),
            inside_bid_price: dec(0),
            inside_bid_quantity: dec(0),
            update_id: 0,
            engine_timestamp: 0,
        }
    );
}

#[test]
fn trade_advance_takes_the_draw_and_counts_up() {
    let mut stream = TradeStream::new(Symbol::SolUsd);
    let draw = TradeDraw {
        price: dec(150_250),
        quantity: dec(1_500),
        buyer_order_id: 1_234_567,
        seller_order_id: 7_654_321,
        is_buyer_the_maker: true,
    };
    assert!(draw.is_in_range());
    stream.advance(3_000_000, draw);
    assert_eq!(
        stream,
        TradeStream {
            event_type: EventType::Trade,
            event_time: 3_000_000,
            symbol: Symbol::SolUsd,
            price: dec(150_250),
            quantity: dec(1_500),
            buyer_order_id: 1_234_567,
            seller_order_id: 7_654_321,
            trade_id: 1,
            engine_timestamp: 3_000_000,
            is_buyer_the_maker: true,
        }
    );
    stream.advance(4_000_000, draw);
    assert_eq!(stream.trade_id, 2);
    assert_eq!(stream.event_time, 4_000_000);
}

#[test]
fn depth_advance_sets_the_bid_below_the_ask() {
    let mut stream = DepthStream::new(Symbol::SolUsdc);
    let draw = DepthDraw {
        jitter: 400,
        ask_price: dec(160_000),
        ask_quantity: dec(2_000),
        price_gap: dec(1_250),
        quantity_gap: dec(5_000),
    };
    assert!(draw.is_in_range());
    stream.advance(2_000_000, draw);
    assert_eq!(
        stream,
        DepthStream {
            event_type: EventType::Depth,
            event_time: 2_000_000,
            symbol: Symbol::SolUsdc,
            asks: vec![PriceLevel { price: dec(160_000), quantity: dec(2_000) }],
            bids: vec![PriceLevel { price: dec(158_750), quantity: dec(-3_000) }],
            first_update_id: 1,
            final_update_id: 1,
            engine_timestamp: 1_999_600,
        }
    );
}

#[test]
fn depth_advance_near_time_zero_keeps_the_engine_timestamp_at_zero() {
    let mut stream = DepthStream::new(Symbol::SolUsd);
    let draw = DepthDraw {
        jitter: 999,
        ask_price: dec(140_000),
        ask_quantity: dec(0),
        price_gap: dec(9_999),
        quantity_gap: dec(9_999),
    };
    stream.advance(1, draw);
    assert_eq!(stream.event_time, 1);
    assert_eq!(stream.engine_timestamp, 0);
    assert_eq!(stream.bids, vec![PriceLevel { price: dec(130_001), quantity: dec(-9_999) }]);
}

#[test]
fn kline_advance_starts_the_candle_before_it_closes() {
    let mut stream = KLineStream::new(Symbol::SolUsd);
    let draw = KLineDraw {
        jitter: 1,
        open_price: dec(141_000),
        close_price: dec(142_000),
        high_price: dec(143_000),
        low_price: dec(144_000),
        base_asset_volume: dec(9_999),
        is_kline_closed: true,
    };
    assert!(draw.is_in_range());
    stream.advance(60_000_000, draw);
    assert_eq!(
        stream,
        KLineStream {
            event_type: EventType::Kline,
            event_time: 60_000_000,
            symbol: Symbol::SolUsd,
            kline_start_time: 59_999_999,
            kline_close_time: 60_000_000,
            open_price: dec(141_000),
            close_price: dec(142_000),
            high_price: dec(143_000),
            low_price: dec(144_000),
            base_asset_volume: dec(9_999),
            number_of_trades: 1,
            is_kline_closed: true,
        }
    );
}

#[test]
fn ticker_advance_takes_the_draw_and_counts_up() {
    let mut stream = TickerStream::new(Symbol::SolUsdc);
    let draw = TickerDraw {
        first_price: dec(140_000),
        last_price: dec(150_000),
        high_price: dec(189_999),
        low_price: dec(140_001),
        base_asset_volume: dec(1),
        quote_asset_volume: dec(2),
    };
    assert!(draw.is_in_range());
    stream.advance(9, draw);
    stream.advance(10, draw);
    assert_eq!(
        stream,
        TickerStream {
            event_type: EventType::Ticker,
            event_time: 10,
            symbol: Symbol::SolUsdc,
            first_price: dec(140_000),
            last_price: dec(150_000),
            high_price: dec(189_999),
            low_price: dec(140_001),
            base_asset_volume: dec(1),
            quote_asset_volume: dec(2),
            number_of_trades: 2,
        }
    );
}

#[test]
fn book_ticker_advance_takes_the_drawn_update_id() {
    let mut stream = BookTickerStream::new(Symbol::SolUsd);
    let draw = BookTickerDraw {
        inside_ask_price: dec(170_000),
        inside_ask_quantity: dec(1_000),
        inside_bid_price: dec(169_000),
        inside_bid_quantity: dec(2_000),
        update_id: 5_555_555,
    };
    assert!(draw.is_in_range());
    stream.advance(77, draw);
    assert_eq!(
        stream,
        BookTickerStream {
            event_type: EventType::BookTicker,
            event_time: 77,
            symbol: Symbol::SolUsd,
            inside_ask_price: dec(170_000),
            inside_ask_quantity: dec(1_000),
            inside_bid_price: dec(169_000),
            inside_bid_quantity: dec(2_000),
            update_id: 5_555_555,
            engine_timestamp: 77,
        }
    );
}

#[test]
fn draws_out_of_range_are_told_apart() {
    let good = TradeDraw {
        price: dec(140_000),
        quantity: dec(0),
        buyer_order_id: 1_000_000,
        seller_order_id: 9_999_998,
        is_buyer_the_maker: false,
    };
    assert!(good.is_in_range());
    assert!(!TradeDraw { price: dec(190_000), ..good }.is_in_range());
    assert!(!TradeDraw { quantity: dec(10_000), ..good }.is_in_range());
    assert!(!TradeDraw { buyer_order_id: 999_999, ..good }.is_in_range());
    assert!(!TradeDraw { seller_order_id: 9_999_999, ..good }.is_in_range());
    let depth = DepthDraw {
        jitter: 999,
        ask_price: dec(140_000),
        ask_quantity: dec(0),
        price_gap: dec(0),
        quantity_gap: dec(0),
    };
    assert!(depth.is_in_range());
    assert!(!DepthDraw { jitter: 1000, ..depth }.is_in_range());
    assert!(!DepthDraw { price_gap: dec(-1), ..depth }.is_in_range());
    let kline = KLineDraw {
        jitter: 0,
        open_price: dec(140_000),
        close_price: dec(140_000),
        high_price: dec(140_000),
        low_price: dec(140_000),
        base_asset_volume: dec(0),
        is_kline_closed: false,
    };
    assert!(kline.is_in_range());
    assert!(!KLineDraw { jitter: 1000, ..kline }.is_in_range());
    assert!(!KLineDraw { low_price: dec(0), ..kline }.is_in_range());
}

#[test]
fn trade_update_draws_in_range_and_counts_up() {
    let mut rng = StdRng::seed_from_u64(1);
    let mut stream = TradeStream::new(Symbol::SolUsd);
    for k in 1..=50u64 {
        stream.update(k * 1_000_000, &mut rng);
        assert_eq!(stream.trade_id, k);
        assert_eq!(stream.event_time, k * 1_000_000);
        assert_eq!(stream.engine_timestamp, k * 1_000_000);
        assert!(price_in_range(stream.price));
        assert!(quantity_in_range(stream.quantity));
        assert!(identifier_in_range(stream.buyer_order_id));
        assert!(identifier_in_range(stream.seller_order_id));
        assert_eq!(stream.symbol, Symbol::SolUsd);
        assert_eq!(stream.event_type, EventType::Trade);
    }
}

#[test]
fn depth_update_keeps_the_engine_timestamp_at_or_before_the_event_time() {
    let mut rng = StdRng::seed_from_u64(2);
    let mut stream = DepthStream::new(Symbol::SolUsdc);
    for k in 1..=50u64 {
        let time = k * 300;
        stream.update(time, &mut rng);
        assert_eq!(stream.event_time, time);
        assert!(stream.engine_timestamp <= stream.event_time);
        assert!(stream.event_time - stream.engine_timestamp < 1000);
        assert_eq!(stream.first_update_id, k);
        assert_eq!(stream.final_update_id, k);
        assert_eq!(stream.asks.len(), 1);
        assert_eq!(stream.bids.len(), 1);
        assert!(price_in_range(stream.asks[0].price));
        assert!(quantity_in_range(stream.asks[0].quantity));
        let price_gap = stream.asks[0].price.thousandths - stream.bids[0].price.thousandths;
        let quantity_gap =
            stream.asks[0].quantity.thousandths - stream.bids[0].quantity.thousandths;
        assert!((0..10_000).contains(&price_gap));
        assert!((0..10_000).contains(&quantity_gap));
    }
}

#[test]
fn kline_update_keeps_the_start_at_or_before_the_event_time() {
    let mut rng = StdRng::seed_from_u64(3);
    let mut stream = KLineStream::new(Symbol::SolUsd);
    for k in 1..=50u64 {
        let time = k * 500;
        stream.update(time, &mut rng);
        assert_eq!(stream.event_time, time);
        assert_eq!(stream.kline_close_time, time);
        assert!(stream.kline_start_time <= stream.event_time);
        assert_eq!(stream.number_of_trades, k);
        assert!(price_in_range(stream.open_price));
        assert!(price_in_range(stream.close_price));
        assert!(price_in_range(stream.high_price));
        assert!(price_in_range(stream.low_price));
        assert!(quantity_in_range(stream.base_asset_volume));
    }
}

#[test]
fn ticker_and_book_ticker_updates_draw_in_range() {
    let mut rng = StdRng::seed_from_u64(4);
    let mut ticker = TickerStream::new(Symbol::SolUsd);
    let mut book = BookTickerStream::new(Symbol::SolUsdc);
    for k in 1..=50u64 {
        ticker.update(k, &mut rng);
        assert_eq!(ticker.number_of_trades, k);
        assert_eq!(ticker.event_time, k);
        assert!(price_in_range(ticker.first_price));
        assert!(price_in_range(ticker.last_price));
        assert!(price_in_range(ticker.high_price));
        assert!(price_in_range(ticker.low_price));
        assert!(quantity_in_range(ticker.base_asset_volume));
        assert!(quantity_in_range(ticker.quote_asset_volume));
        book.update(k, &mut rng);
        assert_eq!(book.event_time, k);
        assert_eq!(book.engine_timestamp, k);
        assert!(price_in_range(book.inside_ask_price));
        assert!(quantity_in_range(book.inside_ask_quantity));
        assert!(price_in_range(book.inside_bid_price));
        assert!(quantity_in_range(book.inside_bid_quantity));
        assert!(identifier_in_range(book.update_id));
    }
}

#[test]
fn generator_is_made_for_the_kind_and_symbol_of_the_name() {
    let made = |text: &str| parse_stream_name(StreamName::parse(text).unwrap());
    assert_eq!(made("kline.1m.SOL_USD"), UpdataStream::Kline(KLineStream::new(Symbol::SolUsd)));
    assert_eq!(made("ticker.SOL_USDC"), UpdataStream::Ticker(TickerStream::new(Symbol::SolUsdc)));
    assert_eq!(made("trade.SOL_USD"), UpdataStream::Trade(TradeStream::new(Symbol::SolUsd)));
    assert_eq!(made("depth.SOL_USDC"), UpdataStream::Depth(DepthStream::new(Symbol::SolUsdc)));
    assert_eq!(
        made("bookTicker.SOL_USD"),
        UpdataStream::BookTicker(BookTickerStream::new(Symbol::SolUsd))
    );
    assert_eq!(made("depth.SOL_USD").kind(), EventType::Depth);
}

#[test]
fn generator_at_the_end_of_its_count_cannot_advance() {
    let mut trade = TradeStream::new(Symbol::SolUsd);
    assert!(UpdataStream::Trade(trade).can_advance());
    trade.trade_id = u64::MAX - 1;
    assert!(UpdataStream::Trade(trade).can_advance());
    trade.trade_id = u64::MAX;
    assert!(!UpdataStream::Trade(trade).can_advance());
    let mut depth = DepthStream::new(Symbol::SolUsd);
    depth.first_update_id = u64::MAX;
    assert!(!UpdataStream::Depth(depth.clone()).can_advance());
    depth.first_update_id = 0;
    depth.final_update_id = u64::MAX;
    assert!(!UpdataStream::Depth(depth).can_advance());
    let mut kline = KLineStream::new(Symbol::SolUsd);
    kline.number_of_trades = u64::MAX;
    assert!(!UpdataStream::Kline(kline).can_advance());
    let mut ticker = TickerStream::new(Symbol::SolUsd);
    ticker.number_of_trades = u64::MAX;
    assert!(!UpdataStream::Ticker(ticker).can_advance());
    assert!(UpdataStream::BookTicker(BookTickerStream::new(Symbol::SolUsd)).can_advance());
}

#[test]
fn generator_update_goes_to_the_kind_it_holds() {
    let mut rng = StdRng::seed_from_u64(9);
    let mut stream = UpdataStream::Trade(TradeStream::new(Symbol::SolUsdc));
    stream.update(5, &mut rng);
    stream.update(6, &mut rng);
    match &stream {
        UpdataStream::Trade(trade) => {
            assert_eq!(trade.trade_id, 2);
            assert_eq!(trade.event_time, 6);
            assert_eq!(trade.symbol, Symbol::SolUsdc);
        }
        other => panic!("the kind changed: {:?}", other),
    }
    assert_eq!(stream.clone(), stream);
}
