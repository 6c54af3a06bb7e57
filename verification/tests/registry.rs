use backpack::heartbeat::Heartbeat;
use backpack::outbound::OutboundQueue;
use backpack::registry::{Registry, Subscription};
use backpack::server::{read_message, subscribe, unsubscribe, updata_stream, Inbound, Routed, Tick};
use backpack::shutdown::ShutdownSignal;
use backpack::subscrib_stream::{Method, StreamName};
use backpack::{DepthStream, TradeStream, UpdataStream};
use rand::rngs::StdRng;
use rand::SeedableRng;

fn named(text: &str) -> StreamName {
    StreamName::parse(text).unwrap()
}

fn names(texts: &[&str]) -> Vec<StreamName> {
    texts.iter().map(|text| named(text)).collect()
}

fn trade_of(registry: &Registry, text: &str) -> TradeStream {
    match registry.get(&named(text)) {
        Some(UpdataStream::Trade(trade)) => *trade,
        other => panic!("no trade channel {}: {:?}", text, other),
    }
}

fn depth_of(update: &Subscription) -> &DepthStream {
    match &update.stream {
        UpdataStream::Depth(depth) => depth,
        other => panic!("not a depth update: {:?}", other),
    }
}

#[test]
fn new_registry_is_empty() {
    let registry = Registry::new();
    assert_eq!(registry.len(), 0);
    assert!(!registry.contains(&named("depth.SOL_USDC")));
    assert!(registry.get(&named("depth.SOL_USDC")).is_none());
    assert!(registry.can_advance());
}

#[test]
fn subscribe_adds_each_channel_once_in_order() {
    let mut registry = Registry::new();
    subscribe(
        names(&["trade.SOL_USD", "depth.SOL_USDC", "trade.SOL_USD", "kline.1m.SOL_USD"]),
        &mut registry,
    );
    assert_eq!(registry.len(), 3);
    let mut rng = StdRng::seed_from_u64(0);
    let order: Vec<String> = registry
        .snapshot_and_advance(1, &mut rng)
        .iter()
        .map(|update| update.name.to_string())
        .collect();
    assert_eq!(order, vec!["trade.SOL_USD", "depth.SOL_USDC", "kline.1m.SOL_USD"]);
}

#[test]
fn subscribe_tells_channels_apart_by_every_part() {
    let mut registry = Registry::new();
    subscribe(
        names(&[
            "kline.1m.SOL_USD",
            "kline.5m.SOL_USD",
            "kline.SOL_USD",
            "kline.1m.SOL_USDC",
            "kline..SOL_USD",
        ]),
        &mut registry,
    );
    assert_eq!(registry.len(), 5);
}

#[test]
fn insert_if_absent_reports_whether_it_added() {
    let mut registry = Registry::new();
    assert!(registry.insert_if_absent(named("ticker.SOL_USD")));
    assert!(!registry.insert_if_absent(named("ticker.SOL_USD")));
    assert!(registry.insert_if_absent(named("ticker.SOL_USDC")));
    assert_eq!(registry.len(), 2);
    assert!(registry.remove(&named("ticker.SOL_USD")));
    assert!(!registry.remove(&named("ticker.SOL_USD")));
    assert_eq!(registry.len(), 1);
    assert!(registry.contains(&named("ticker.SOL_USDC")));
}

#[test]
fn resubscribing_changes_neither_size_nor_counters() {
    let mut registry = Registry::new();
    let mut rng = StdRng::seed_from_u64(21);
    subscribe(names(&["trade.SOL_USD", "depth.SOL_USD"]), &mut registry);
    for tick in 1..=4 {
        registry.snapshot_and_advance(tick, &mut rng);
    }
    let before = trade_of(&registry, "trade.SOL_USD");
    assert_eq!(before.trade_id, 4);
    subscribe(names(&["trade.SOL_USD"]), &mut registry);
    subscribe(names(&["depth.SOL_USD", "trade.SOL_USD"]), &mut registry);
    assert_eq!(registry.len(), 2);
    assert_eq!(trade_of(&registry, "trade.SOL_USD"), before);
}

#[test]
fn unsubscribing_an_unknown_channel_changes_nothing() {
    let mut registry = Registry::new();
    let mut rng = StdRng::seed_from_u64(22);
    unsubscribe(names(&["trade.SOL_USD"]), &mut registry);
    assert_eq!(registry.len(), 0);
    subscribe(names(&["trade.SOL_USD"]), &mut registry);
    registry.snapshot_and_advance(1, &mut rng);
    let before = trade_of(&registry, "trade.SOL_USD");
    unsubscribe(names(&["trade.SOL_USDC", "depth.SOL_USD", "kline.1m.SOL_USD"]), &mut registry);
    assert_eq!(registry.len(), 1);
    assert_eq!(trade_of(&registry, "trade.SOL_USD"), before);
}

#[test]
fn unsubscribe_removes_only_the_named_channels() {
    let mut registry = Registry::new();
    subscribe(
        names(&["trade.SOL_USD", "depth.SOL_USDC", "ticker.SOL_USD", "bookTicker.SOL_USD"]),
        &mut registry,
    );
    unsubscribe(names(&["depth.SOL_USDC", "kline.SOL_USD"]), &mut registry);
    assert_eq!(registry.len(), 3);
    assert!(!registry.contains(&named("depth.SOL_USDC")));
    let mut rng = StdRng::seed_from_u64(0);
    let order: Vec<String> = registry
        .snapshot_and_advance(1, &mut rng)
        .iter()
        .map(|update| update.name.to_string())
        .collect();
    assert_eq!(order, vec!["trade.SOL_USD", "ticker.SOL_USD", "bookTicker.SOL_USD"]);
}

#[test]
fn a_channel_subscribed_again_after_unsubscribe_starts_anew() {
    let mut registry = Registry::new();
    let mut rng = StdRng::seed_from_u64(23);
    subscribe(names(&["trade.SOL_USD"]), &mut registry);
    registry.snapshot_and_advance(1, &mut rng);
    registry.snapshot_and_advance(2, &mut rng);
    assert_eq!(trade_of(&registry, "trade.SOL_USD").trade_id, 2);
    unsubscribe(names(&["trade.SOL_USD"]), &mut registry);
    subscribe(names(&["trade.SOL_USD"]), &mut registry);
    assert_eq!(
        trade_of(&registry, "trade.SOL_USD"),
        TradeStream::new(backpack::Symbol::SolUsd)
    );
}

#[test]
fn trade_id_after_k_ticks_is_k_more() {
    let mut registry = Registry::new();
    let mut rng = StdRng::seed_from_u64(24);
    subscribe(names(&["trade.SOL_USDC"]), &mut registry);
    let initial = trade_of(&registry, "trade.SOL_USDC").trade_id;
    let mut seen = Vec::new();
    for k in 1..=25u64 {
        let updates = registry.snapshot_and_advance(k * 1_000_000, &mut rng);
        assert_eq!(updates.len(), 1);
        let id = trade_of(&registry, "trade.SOL_USDC").trade_id;
        assert_eq!(id, initial + k);
        assert!(seen.iter().all(|earlier| *earlier < id));
        seen.push(id);
        match &updates[0].stream {
            UpdataStream::Trade(trade) => assert_eq!(trade.trade_id, id),
            other => panic!("not a trade update: {:?}", other),
        }
    }
}

#[test]
fn three_ticks_of_one_depth_channel() {
    let mut registry = Registry::new();
    let mut rng = StdRng::seed_from_u64(7);
    let shutdown = ShutdownSignal::new();
    subscribe(names(&["depth.SOL_USDC"]), &mut registry);
    let mut frames = Vec::new();
    for second in 1..=3u64 {
        match updata_stream(&mut registry, second * 1_000_000, &mut rng, &shutdown) {
            Tick::Emitted(updates) => frames.extend(updates),
            Tick::Stopped => panic!("the broadcaster stopped"),
        }
    }
    assert_eq!(frames.len(), 3);
    for (i, frame) in frames.iter().enumerate() {
        assert_eq!(frame.name.to_string(), "depth.SOL_USDC");
        let depth = depth_of(frame);
        assert_eq!(depth.event_time, (i as u64 + 1) * 1_000_000);
        assert!(depth.engine_timestamp <= depth.event_time);
        assert_eq!(depth.final_update_id, i as u64 + 1);
        assert_eq!(depth.first_update_id, i as u64 + 1);
    }
    for pair in frames.windows(2) {
        assert_eq!(depth_of(&pair[1]).final_update_id, depth_of(&pair[0]).final_update_id + 1);
    }
}

#[test]
fn three_ticks_with_the_same_seed_give_the_same_frames() {
    let run = || {
        let mut registry = Registry::new();
        let mut rng = StdRng::seed_from_u64(7);
        subscribe(names(&["depth.SOL_USDC", "trade.SOL_USD"]), &mut registry);
        let mut frames = Vec::new();
        for second in 1..=3u64 {
            frames.extend(registry.snapshot_and_advance(second * 1_000_000, &mut rng));
        }
        frames
    };
    assert_eq!(run(), run());
    assert_eq!(run().len(), 6);
}

#[test]
fn updates_are_what_the_registry_holds_after_the_tick() {
    let mut registry = Registry::new();
    let mut rng = StdRng::seed_from_u64(8);
    subscribe(
        names(&["kline.1m.SOL_USD", "ticker.SOL_USD", "bookTicker.SOL_USDC"]),
        &mut registry,
    );
    let updates = registry.snapshot_and_advance(5_000_000, &mut rng);
    assert_eq!(updates.len(), 3);
    for update in &updates {
        assert_eq!(registry.get(&update.name), Some(&update.stream));
        assert_eq!(update.stream.kind(), update.name.stream);
    }
}

#[test]
fn unsubscribe_of_a_channel_never_subscribed_sends_nothing() {
    let mut registry = Registry::new();
    let mut heartbeat = Heartbeat::new(0);
    let mut shutdown = ShutdownSignal::new();
    let mut outbound = OutboundQueue::new(8);
    let mut rng = StdRng::seed_from_u64(9);
    let outcome = read_message(
        &mut registry,
        Inbound::Command {
            method: "UNSUBSCRIBE".to_string(),
            params: vec!["depth.SOL_USDC".to_string()],
        },
        1_000,
        &mut heartbeat,
        &mut shutdown,
        &mut outbound,
    );
    assert_eq!(outcome, Routed::Applied(Method::Unsubscribe));
    assert!(!shutdown.is_fired());
    assert_eq!(outbound.len(), 0);
    assert_eq!(registry.len(), 0);
    for second in 1..=5u64 {
        match updata_stream(&mut registry, second * 1_000_000, &mut rng, &shutdown) {
            Tick::Emitted(updates) => assert!(updates.is_empty()),
            Tick::Stopped => panic!("the broadcaster stopped"),
        }
    }
}

#[test]
fn unsubscribe_of_an_unknown_channel_leaves_the_others_emitting() {
    let mut registry = Registry::new();
    let mut heartbeat = Heartbeat::new(0);
    let mut shutdown = ShutdownSignal::new();
    let mut outbound = OutboundQueue::new(8);
    let mut rng = StdRng::seed_from_u64(10);
    subscribe(names(&["trade.SOL_USD"]), &mut registry);
    let outcome = read_message(
        &mut registry,
        Inbound::Command {
            method: "UNSUBSCRIBE".to_string(),
            params: vec!["depth.SOL_USDC".to_string()],
        },
        1_000,
        &mut heartbeat,
        &mut shutdown,
        &mut outbound,
    );
    assert_eq!(outcome, Routed::Applied(Method::Unsubscribe));
    match updata_stream(&mut registry, 1_000_000, &mut rng, &shutdown) {
        Tick::Emitted(updates) => {
            assert_eq!(updates.len(), 1);
            assert!(updates.iter().all(|update| update.name.to_string() != "depth.SOL_USDC"));
        }
        Tick::Stopped => panic!("the broadcaster stopped"),
    }
}

#[test]
fn two_subscribe_commands_for_one_channel_leave_one_entry() {
    let mut registry = Registry::new();
    let mut heartbeat = Heartbeat::new(0);
    let mut shutdown = ShutdownSignal::new();
    let mut outbound = OutboundQueue::new(8);
    for _ in 0..2 {
        let outcome = read_message(
            &mut registry,
            Inbound::Command {
                method: "SUBSCRIBE".to_string(),
                params: vec!["depth.SOL_USDC".to_string()],
            },
            1_000,
            &mut heartbeat,
            &mut shutdown,
            &mut outbound,
        );
        assert_eq!(outcome, Routed::Applied(Method::Subscribe));
    }
    assert_eq!(registry.len(), 1);
    assert!(registry.contains(&named("depth.SOL_USDC")));
    let mut rng = StdRng::seed_from_u64(12);
    assert_eq!(registry.snapshot_and_advance(1, &mut rng).len(), 1);
}

#[test]
fn one_subscribe_command_that_names_a_channel_twice_leaves_one_entry() {
    let mut registry = Registry::new();
    subscribe(names(&["depth.SOL_USDC", "depth.SOL_USDC"]), &mut registry);
    assert_eq!(registry.len(), 1);
}

#[test]
fn subscription_clone_is_equal() {
    let mut registry = Registry::new();
    let mut rng = StdRng::seed_from_u64(13);
    subscribe(names(&["depth.SOL_USDC"]), &mut registry);
    let updates = registry.snapshot_and_advance(1_000_000, &mut rng);
    assert_eq!(updates[0].clone(), updates[0]);
}
