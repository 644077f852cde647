use orderflow_bubbles::price::PRICE_SCALE;
use orderflow_bubbles::processing::ProcessingState;
use orderflow_bubbles::types::{
    AbsorptionType, Bubble, CVDPoint, Direction, FlipType, Side, SignalKind, Strength, Trade,
    WsMessage,
};

fn trade(side: Side, size: u32, points: i64, timestamp: u64) -> Trade {
    Trade { symbol: "NQ".to_string(), price: points * PRICE_SCALE, size, side, timestamp }
}

fn feed(engine: &mut ProcessingState, t: Trade) -> bool {
    assert!(engine.has_room(&t));
    engine.add_trade(t)
}

fn flips(out: &[WsMessage]) -> Vec<orderflow_bubbles::types::DeltaFlip> {
    out.iter()
        .filter_map(|m| match m {
            WsMessage::DeltaFlip(f) => Some(*f),
            _ => None,
        })
        .collect()
}

#[test]
fn baseline_window_gives_bubble_and_delta_point() {
    let mut engine = ProcessingState::new(0);
    assert!(feed(&mut engine, trade(Side::Buy, 10, 100, 0)));
    assert!(feed(&mut engine, trade(Side::Sell, 5, 100, 100)));
    let out = engine.process_buffer(1000);
    assert_eq!(out.len(), 3);
    assert_eq!(
        out[0],
        WsMessage::Bubble(Bubble {
            id: 0,
            price: 100 * PRICE_SCALE,
            size: 10,
            side: Side::Buy,
            timestamp: 1000,
            is_significant_imbalance: true,
        })
    );
    assert_eq!(out[1], WsMessage::CVDPoint(CVDPoint { timestamp: 1000, value: 5 }));
    assert!(matches!(out[2], WsMessage::VolumeProfile { .. }));
    assert!(flips(&out).is_empty());
    assert_eq!(engine.cvd(), 5);
    assert_eq!(engine.buffered(), 0);
}

#[test]
fn delta_flip_fires_once_and_respects_cooldown() {
    let mut engine = ProcessingState::new(0);
    feed(&mut engine, trade(Side::Buy, 200, 100, 0));
    let first = engine.process_buffer(10_000);
    assert!(flips(&first).is_empty());
    assert_eq!(engine.cvd(), 200);

    feed(&mut engine, trade(Side::Sell, 500, 100, 0));
    let second = engine.process_buffer(16_000);
    let f = flips(&second);
    assert_eq!(f.len(), 1);
    assert_eq!(f[0].direction, Direction::Bearish);
    assert_eq!(f[0].flip_type, FlipType::ZeroCross);
    assert_eq!(f[0].cvd_before, 200);
    assert_eq!(f[0].cvd_after, -300);
    assert_eq!(f[0].timestamp, 16_000);

    feed(&mut engine, trade(Side::Buy, 1000, 100, 0));
    let third = engine.process_buffer(17_000);
    assert!(flips(&third).is_empty());
    assert_eq!(engine.cvd(), 700);

    feed(&mut engine, trade(Side::Sell, 2000, 100, 0));
    let fourth = engine.process_buffer(18_000);
    let f = flips(&fourth);
    assert_eq!(f.len(), 1);
    assert_eq!(f[0].direction, Direction::Bearish);
}

#[test]
fn flip_exactly_at_cooldown_is_let_through() {
    let mut engine = ProcessingState::new(0);
    feed(&mut engine, trade(Side::Buy, 10, 100, 0));
    engine.process_buffer(10_000);
    feed(&mut engine, trade(Side::Sell, 30, 100, 0));
    assert_eq!(flips(&engine.process_buffer(11_000)).len(), 1);
    feed(&mut engine, trade(Side::Buy, 50, 100, 0));
    let out = engine.process_buffer(13_000);
    let f = flips(&out);
    assert_eq!(f.len(), 1);
    assert_eq!(f[0].direction, Direction::Bullish);
    assert_eq!(f[0].cvd_after, 30);
}

#[test]
fn first_window_never_flips() {
    let mut engine = ProcessingState::new(0);
    assert_eq!(engine.cvd_5s_ago(), 0);
    feed(&mut engine, trade(Side::Sell, 7, 100, 0));
    let out = engine.process_buffer(5_000);
    assert!(flips(&out).is_empty());
    assert_eq!(engine.cvd(), -7);
    assert_eq!(engine.cvd_5s_ago(), -7);
}

#[test]
fn tied_window_is_sell_dominant() {
    let mut engine = ProcessingState::new(0);
    feed(&mut engine, trade(Side::Buy, 10, 100, 0));
    feed(&mut engine, trade(Side::Sell, 10, 101, 0));
    let out = engine.process_buffer(1000);
    match &out[0] {
        WsMessage::Bubble(b) => {
            assert_eq!(b.side, Side::Sell);
            assert_eq!(b.size, 10);
            assert_eq!(b.price, 101 * PRICE_SCALE);
            assert!(!b.is_significant_imbalance);
        }
        other => panic!("expected a bubble, got {:?}", other),
    }
    assert_eq!(engine.cvd(), 0);
}

#[test]
fn empty_tick_hands_out_nothing() {
    let mut engine = ProcessingState::new(0);
    assert!(engine.process_buffer(1000).is_empty());
    assert_eq!(engine.clock(), 1000);
    assert_eq!(engine.cvd(), 0);
}

#[test]
fn malformed_trades_are_dropped() {
    let mut engine = ProcessingState::new(0);
    assert!(!feed(&mut engine, trade(Side::Buy, 0, 100, 0)));
    let negative = Trade {
        symbol: "NQ".to_string(),
        price: -1,
        size: 5,
        side: Side::Sell,
        timestamp: 0,
    };
    assert!(!feed(&mut engine, negative));
    let too_high = Trade {
        symbol: "NQ".to_string(),
        price: orderflow_bubbles::price::MAX_PRICE + 1,
        size: 5,
        side: Side::Sell,
        timestamp: 0,
    };
    assert!(!feed(&mut engine, too_high));
    assert_eq!(engine.dropped_trades(), 3);
    assert_eq!(engine.buffered(), 0);
    assert_eq!(engine.cvd(), 0);
    assert_eq!(engine.session_volume(), 0);
    assert!(engine.process_buffer(1000).is_empty());
    assert_eq!(engine.dropped_trades(), 3);
}

#[test]
fn dropped_trades_are_counted_and_taken_trades_are_not() {
    let mut engine = ProcessingState::new(0);
    assert_eq!(engine.dropped_trades(), 0);
    assert!(feed(&mut engine, trade(Side::Buy, 4, 100, 0)));
    assert_eq!(engine.dropped_trades(), 0);
    engine.drop_unreadable();
    assert_eq!(engine.dropped_trades(), 1);
    assert!(!feed(&mut engine, trade(Side::Sell, 0, 100, 0)));
    assert_eq!(engine.dropped_trades(), 2);
    assert_eq!(engine.cvd(), 4);
    assert_eq!(engine.buffered(), 1);
    assert!(!engine.process_buffer(1000).is_empty());
    assert_eq!(engine.dropped_trades(), 2);
}

#[test]
fn each_trade_moves_the_delta_by_its_size() {
    let mut engine = ProcessingState::new(0);
    let mut expected: i64 = 0;
    let sizes: [(Side, u32); 6] =
        [(Side::Buy, 7), (Side::Sell, 3), (Side::Sell, 11), (Side::Buy, 1), (Side::Buy, 40), (Side::Sell, 2)];
    for (i, (side, size)) in sizes.iter().enumerate() {
        let before = engine.cvd();
        assert!(feed(&mut engine, trade(*side, *size, 100 + i as i64, 0)));
        let step = if *side == Side::Buy { *size as i64 } else { -(*size as i64) };
        assert_eq!(engine.cvd(), before + step);
        expected += step;
        if i % 2 == 1 {
            engine.process_buffer(1000 * i as u64);
            assert_eq!(engine.cvd(), expected);
        }
    }
    assert_eq!(engine.cvd(), 32);
}

#[test]
fn delta_of_five_seconds_ago_is_the_sample_of_the_greatest_time() {
    let mut engine = ProcessingState::new(0);
    // Samples of the delta at 1 s, 4 s and 9 s: 5, 9 and 12.
    assert!(feed(&mut engine, trade(Side::Buy, 5, 100, 0)));
    engine.process_buffer(1_000);
    assert!(feed(&mut engine, trade(Side::Buy, 4, 100, 0)));
    engine.process_buffer(4_000);
    assert!(feed(&mut engine, trade(Side::Buy, 3, 100, 0)));
    engine.process_buffer(9_000);
    assert_eq!(engine.cvd(), 12);
    // At 10 s the samples of 1 s and 4 s are five seconds old; the later one counts.
    assert!(feed(&mut engine, trade(Side::Buy, 1, 100, 0)));
    engine.process_buffer(10_000);
    assert_eq!(engine.cvd_5s_ago(), 9);
    assert_eq!(engine.cvd(), 13);
    // A tick with a time that has passed works with the engine's own time.
    assert!(feed(&mut engine, trade(Side::Buy, 1, 100, 0)));
    engine.process_buffer(2_000);
    assert_eq!(engine.clock(), 10_000);
    assert_eq!(engine.cvd_5s_ago(), 9);
    // At 14 s the sample of 9 s is the latest that is five seconds old.
    assert!(feed(&mut engine, trade(Side::Sell, 2, 100, 0)));
    engine.process_buffer(14_000);
    assert_eq!(engine.cvd_5s_ago(), 12);
    // After thirty seconds without a window no sample is left but the new one.
    assert!(feed(&mut engine, trade(Side::Sell, 2, 100, 0)));
    engine.process_buffer(50_000);
    assert_eq!(engine.cvd_5s_ago(), engine.cvd());
}

#[test]
fn cvd_is_the_signed_sum_of_the_trades() {
    let mut engine = ProcessingState::new(0);
    let sizes: [(Side, u32); 6] = [
        (Side::Buy, 3),
        (Side::Sell, 10),
        (Side::Buy, 8),
        (Side::Sell, 1),
        (Side::Buy, 40),
        (Side::Sell, 25),
    ];
    let mut net: i64 = 0;
    for (i, (side, size)) in sizes.iter().enumerate() {
        feed(&mut engine, trade(*side, *size, 100 + i as i64, 0));
        net += match side {
            Side::Buy => *size as i64,
            Side::Sell => -(*size as i64),
        };
        assert_eq!(engine.cvd(), net);
        if i % 2 == 1 {
            engine.process_buffer(1000 * (i as u64 + 1));
            assert_eq!(engine.cvd(), net);
        }
    }
    assert_eq!(engine.cvd(), 15);
    assert_eq!(engine.session_volume(), 87);
}

#[test]
fn profile_levels_balance() {
    let mut engine = ProcessingState::new(0);
    feed(&mut engine, trade(Side::Buy, 3, 100, 0));
    feed(&mut engine, trade(Side::Sell, 4, 100, 0));
    feed(&mut engine, trade(Side::Buy, 5, 99, 0));
    engine.process_buffer(1000);
    let levels = engine.volume_profile().levels();
    assert_eq!(levels.len(), 2);
    assert_eq!(levels[0].price, 99 * PRICE_SCALE);
    assert_eq!(levels[0].buy_volume, 5);
    assert_eq!(levels[0].sell_volume, 0);
    assert_eq!(levels[1].price, 100 * PRICE_SCALE);
    assert_eq!(levels[1].buy_volume, 3);
    assert_eq!(levels[1].sell_volume, 4);
    for l in &levels {
        assert_eq!(l.total_volume, l.buy_volume + l.sell_volume);
    }
}

#[test]
fn empty_ticks_before_a_window_change_nothing() {
    let trades = [
        trade(Side::Buy, 120, 100, 0),
        trade(Side::Sell, 20, 100, 0),
        trade(Side::Buy, 2, 101, 0),
    ];
    let mut plain = ProcessingState::new(0);
    let mut ticked = ProcessingState::new(0);
    assert!(ticked.process_buffer(200).is_empty());
    assert!(ticked.process_buffer(700).is_empty());
    for t in trades.iter() {
        feed(&mut plain, t.clone());
        feed(&mut ticked, t.clone());
    }
    let a = plain.process_buffer(1000);
    let b = ticked.process_buffer(1000);
    assert_eq!(a, b);
    assert_eq!(plain.cvd(), ticked.cvd());
    assert_eq!(plain.volume_profile().levels(), ticked.volume_profile().levels());
    assert_eq!(plain.zones(), ticked.zones());
}

#[test]
fn clock_never_runs_backwards() {
    let mut engine = ProcessingState::new(5_000);
    feed(&mut engine, trade(Side::Buy, 1, 100, 0));
    let out = engine.process_buffer(1_000);
    match &out[0] {
        WsMessage::Bubble(b) => assert_eq!(b.timestamp, 5_000),
        other => panic!("expected a bubble, got {:?}", other),
    }
    assert_eq!(engine.clock(), 5_000);
}

#[test]
fn absorption_in_the_engine_opens_a_zone_at_the_bucket() {
    let mut engine = ProcessingState::new(0);
    feed(&mut engine, trade(Side::Buy, 800, 100, 0));
    feed(&mut engine, trade(Side::Sell, 400, 100, 0));
    let out = engine.process_buffer(60_000);
    let events: Vec<_> = out
        .iter()
        .filter_map(|m| match m {
            WsMessage::Absorption(e) => Some(*e),
            _ => None,
        })
        .collect();
    assert_eq!(events.len(), 1);
    let e = events[0];
    assert_eq!(e.price, 100 * PRICE_SCALE);
    assert_eq!(e.absorption_type, AbsorptionType::Buying);
    assert_eq!(e.delta, 400);
    assert_eq!(e.price_change, 0);
    assert_eq!(e.event_count, 1);
    assert_eq!(e.total_absorbed, 400);
    assert!(e.at_key_level);
    assert!(!e.against_trend);
    assert_eq!(e.strength, Strength::Medium);
    let zones = engine.zones();
    assert_eq!(zones.len(), 1);
    assert_eq!(zones[0].price, 100 * PRICE_SCALE);
    assert_eq!(zones[0].peak_strength, Strength::Medium);
    assert_eq!(zones[0].first_seen, 60_000);
    assert_eq!(zones[0].last_seen, 60_000);
    let history = engine.signal_history();
    assert_eq!(history.len(), 1);
    assert_eq!(history[0].signal_type, SignalKind::Absorption);
    assert_eq!(history[0].direction, Direction::Bearish);
    assert_eq!(history[0].price, 100 * PRICE_SCALE);
    let stats: Vec<_> = out
        .iter()
        .filter_map(|m| match m {
            WsMessage::SessionStats(s) => Some(*s),
            _ => None,
        })
        .collect();
    assert_eq!(stats.len(), 1);
    assert_eq!(stats[0].absorptions.count, 1);
    assert_eq!(stats[0].absorptions.bearish_count, 1);
    assert_eq!(stats[0].total_volume, 1200);
    assert_eq!(stats[0].current_price, 100 * PRICE_SCALE);
    assert_eq!(stats[0].session_high, 100 * PRICE_SCALE);
    assert_eq!(stats[0].session_low, 100 * PRICE_SCALE);
    assert_eq!(engine.session_stats_snapshot(), stats[0]);
    assert_eq!(engine.session_stats_snapshot(), engine.session_stats_snapshot());
}

#[test]
fn zones_are_reported_from_their_second_event() {
    let mut engine = ProcessingState::new(0);
    for k in 0..4u64 {
        feed(&mut engine, trade(Side::Buy, 800, 100, 0));
        feed(&mut engine, trade(Side::Sell, 400, 100, 0));
        let out = engine.process_buffer(60_000 + 40_000 * k);
        let lists: Vec<_> = out
            .iter()
            .filter_map(|m| match m {
                WsMessage::AbsorptionZones { zones } => Some(zones.clone()),
                _ => None,
            })
            .collect();
        if k == 0 {
            assert!(lists.is_empty());
        } else {
            assert_eq!(lists.len(), 1);
            assert_eq!(lists[0].len(), 1);
            assert_eq!(lists[0][0].event_count, k + 1);
            assert_eq!(lists[0][0].total_absorbed, 400 * (k + 1));
            assert!(lists[0][0].at_poc);
        }
    }
    let zones = engine.zones();
    assert_eq!(zones[0].event_count, 4);
    assert_eq!(zones[0].peak_strength, Strength::Defended);
    assert_eq!(zones[0].first_seen, 60_000);
    assert_eq!(zones[0].last_seen, 180_000);
}

fn kinds(out: &[WsMessage]) -> Vec<&'static str> {
    out.iter()
        .map(|m| match m {
            WsMessage::Bubble(_) => "bubble",
            WsMessage::CVDPoint(_) => "cvd",
            WsMessage::DeltaFlip(_) => "flip",
            WsMessage::Absorption(_) => "absorption",
            WsMessage::AbsorptionZones { .. } => "zones",
            WsMessage::StackedImbalance(_) => "stacked",
            WsMessage::VolumeProfile { .. } => "profile",
            WsMessage::Confluence(_) => "confluence",
            WsMessage::SessionStats(_) => "stats",
            _ => "other",
        })
        .collect()
}

#[test]
fn messages_go_out_in_their_order() {
    let mut engine = ProcessingState::new(0);
    feed(&mut engine, trade(Side::Sell, 1000, 90, 0));
    let first = engine.process_buffer(40_000);
    assert_eq!(kinds(&first), vec!["bubble", "cvd", "absorption", "profile", "stats"]);

    for points in 100..104 {
        feed(&mut engine, trade(Side::Buy, 300, points, 0));
    }
    let out = engine.process_buffer(80_000);
    assert_eq!(
        kinds(&out),
        vec!["bubble", "cvd", "flip", "stacked", "profile", "confluence", "stats"]
    );
    match &out[0] {
        WsMessage::Bubble(b) => {
            assert_eq!(b.id, 1);
            assert_eq!(b.price, 101 * PRICE_SCALE + PRICE_SCALE / 2);
            assert_eq!(b.size, 1200);
        }
        other => panic!("expected a bubble, got {:?}", other),
    }
    match &out[3] {
        WsMessage::StackedImbalance(s) => {
            assert_eq!(s.side, Side::Buy);
            assert_eq!(s.level_count, 4);
            assert_eq!(s.price_low, 100 * PRICE_SCALE);
            assert_eq!(s.price_high, 104 * PRICE_SCALE);
            assert_eq!(s.total_imbalance, 1200);
        }
        other => panic!("expected a stacked imbalance, got {:?}", other),
    }
    match &out[5] {
        WsMessage::Confluence(c) => {
            assert_eq!(c.direction, Direction::Bullish);
            assert_eq!(c.score, 2);
            assert_eq!(c.signals, vec![SignalKind::DeltaFlip, SignalKind::StackedImbalance]);
            assert_eq!(c.timestamp, 80_000);
            assert_eq!(c.price, 102 * PRICE_SCALE);
            assert_eq!(c.price_after_1m, None);
        }
        other => panic!("expected a confluence, got {:?}", other),
    }
    match &out[6] {
        WsMessage::SessionStats(s) => {
            assert_eq!(s.delta_flips.count, 1);
            assert_eq!(s.stacked_imbalances.count, 1);
            assert_eq!(s.confluences.count, 1);
            assert_eq!(s.absorptions.count, 1);
            assert_eq!(s.current_price, 102 * PRICE_SCALE);
            assert_eq!(s.session_high, 102 * PRICE_SCALE);
            assert_eq!(s.session_low, 90 * PRICE_SCALE);
            assert_eq!(s.total_volume, 2200);
        }
        other => panic!("expected statistics, got {:?}", other),
    }
    assert_eq!(engine.send_volume_profile(), out[4]);
    let history = engine.signal_history();
    assert_eq!(history.len(), 4);
    assert_eq!(history[1].signal_type, SignalKind::DeltaFlip);
    assert_eq!(history[1].price, 101 * PRICE_SCALE + PRICE_SCALE / 2);
    assert_eq!(history[2].signal_type, SignalKind::StackedImbalance);
    assert_eq!(history[3].signal_type, SignalKind::Confluence);
    assert_eq!(history[0].price_after_1m, None);
}

#[test]
fn absorption_and_zone_list_come_before_the_profile() {
    let mut engine = ProcessingState::new(0);
    feed(&mut engine, trade(Side::Sell, 100, 100, 0));
    engine.process_buffer(10_000);
    feed(&mut engine, trade(Side::Buy, 5000, 100, 0));
    let second = engine.process_buffer(50_000);
    assert_eq!(kinds(&second), vec!["bubble", "cvd", "flip", "absorption", "zones", "profile", "stats"]);
    feed(&mut engine, trade(Side::Sell, 1000, 100, 0));
    let third = engine.process_buffer(55_000);
    assert_eq!(kinds(&third), vec!["bubble", "cvd", "absorption", "zones", "profile", "confluence", "stats"]);
    match &third[5] {
        WsMessage::Confluence(c) => {
            assert_eq!(c.direction, Direction::Bullish);
            assert_eq!(c.score, 2);
            assert_eq!(c.signals, vec![SignalKind::DeltaFlip, SignalKind::Absorption]);
        }
        other => panic!("expected a confluence, got {:?}", other),
    }
    feed(&mut engine, trade(Side::Sell, 1000, 100, 0));
    let fourth = engine.process_buffer(56_000);
    assert!(!kinds(&fourth).contains(&"confluence"));
}
