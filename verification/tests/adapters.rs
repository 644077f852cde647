use orderflow_bubbles::adapters::{
    clamp_speed, contains_bytes, historical_side, is_trade_action, is_trade_file, live_side,
    millis_of_nanos, pacing_delay, recorded_side, symbol_for,
};
use orderflow_bubbles::config::{effective_min_size, Mode};
use orderflow_bubbles::demo::{next_demo_trade, xorshift, DEMO_CEILING, DEMO_FLOOR, DEMO_START};
use orderflow_bubbles::price::{PRICE_SCALE, TICK};
use orderflow_bubbles::replay::{
    middle, replay_trades_for_signals, CapturedSignal, SignalCollector,
};
use orderflow_bubbles::types::{
    Bubble, ClientAction, ClientMessage, DeltaFlip, Direction, FlipType, Side, SignalKind,
    StackedImbalance, Strength, WsMessage,
};

#[test]
fn live_side_follows_the_aggressor() {
    assert_eq!(live_side(b'A'), Side::Buy);
    assert_eq!(live_side(b'a'), Side::Buy);
    assert_eq!(live_side(b'B'), Side::Sell);
    assert_eq!(live_side(b'b'), Side::Sell);
    assert_eq!(live_side(b'N'), Side::Buy);
    assert_eq!(live_side(0), Side::Buy);
}

#[test]
fn historical_side_follows_the_action_first() {
    assert_eq!(historical_side(b'B', b'A'), Side::Buy);
    assert_eq!(historical_side(b'S', b'B'), Side::Sell);
    assert_eq!(historical_side(b'A', b'B'), Side::Sell);
    assert_eq!(historical_side(b'T', b'B'), Side::Buy);
    assert_eq!(historical_side(b'T', b'A'), Side::Sell);
    assert_eq!(historical_side(b'T', b'N'), Side::Sell);
}

#[test]
fn recorded_side_reads_one_letter() {
    assert_eq!(recorded_side(&"B".to_string()), Some(Side::Buy));
    assert_eq!(recorded_side(&"A".to_string()), Some(Side::Sell));
    assert_eq!(recorded_side(&"N".to_string()), None);
    assert_eq!(recorded_side(&"".to_string()), None);
    assert_eq!(recorded_side(&"BB".to_string()), None);
    assert_eq!(recorded_side(&"b".to_string()), None);
    assert!(is_trade_action(&"T".to_string()));
    assert!(!is_trade_action(&"t".to_string()));
    assert!(!is_trade_action(&"A".to_string()));
}

#[test]
fn nanos_round_down_to_millis() {
    assert_eq!(millis_of_nanos(1_700_000_000_123_456_789), 1_700_000_000_123);
    assert_eq!(millis_of_nanos(999_999), 0);
    assert_eq!(millis_of_nanos(1_000_000), 1);
}

#[test]
fn pacing_skips_long_gaps_and_nothing() {
    assert_eq!(pacing_delay(None, 1_500, 1), None);
    assert_eq!(pacing_delay(Some(1_000), 1_500, 1), Some(500));
    assert_eq!(pacing_delay(Some(1_000), 1_500, 10), Some(50));
    assert_eq!(pacing_delay(Some(1_000), 1_005, 10), None);
    assert_eq!(pacing_delay(Some(1_000), 6_000, 1), None);
    assert_eq!(pacing_delay(Some(1_000), 5_999, 1), Some(4_999));
    assert_eq!(pacing_delay(Some(1_000), 1_000, 1), None);
    assert_eq!(pacing_delay(Some(1_000), 999, 1), None);
    assert_eq!(pacing_delay(Some(0), 60_000, 100), Some(600));
}

#[test]
fn speed_stays_between_one_and_a_hundred() {
    assert_eq!(clamp_speed(0), 1);
    assert_eq!(clamp_speed(1), 1);
    assert_eq!(clamp_speed(37), 37);
    assert_eq!(clamp_speed(100), 100);
    assert_eq!(clamp_speed(101), 100);
    assert_eq!(clamp_speed(u32::MAX), 100);
}

#[test]
fn live_trades_are_filed_under_the_first_symbol() {
    assert_eq!(symbol_for(&Vec::new()), "UNKNOWN");
    assert_eq!(symbol_for(&vec!["NQ.c.0".to_string()]), "NQ.c.0");
    assert_eq!(symbol_for(&vec!["NQ.c.0".to_string(), "ES.c.0".to_string()]), "NQ.c.0");
}

fn message(action: &str, min_size: Option<u32>, speed: Option<u32>) -> ClientMessage {
    ClientMessage { action: action.to_string(), symbol: None, min_size, speed }
}

#[test]
fn client_messages_ask_for_what_they_name() {
    assert_eq!(message("set_min_size", Some(5), None).action(), ClientAction::SetMinSize(5));
    assert_eq!(message("set_min_size", None, Some(5)).action(), ClientAction::Ignore);
    assert_eq!(message("replay_pause", None, None).action(), ClientAction::PauseReplay);
    assert_eq!(message("replay_resume", Some(1), None).action(), ClientAction::ResumeReplay);
    assert_eq!(message("set_replay_speed", None, Some(10)).action(), ClientAction::SetReplaySpeed(10));
    assert_eq!(message("set_replay_speed", None, Some(0)).action(), ClientAction::SetReplaySpeed(1));
    assert_eq!(message("set_replay_speed", None, Some(1000)).action(), ClientAction::SetReplaySpeed(100));
    assert_eq!(message("set_replay_speed", Some(3), None).action(), ClientAction::Ignore);
    assert_eq!(message("subscribe", Some(3), Some(3)).action(), ClientAction::Ignore);
    assert_eq!(message("", None, None).action(), ClientAction::Ignore);
}

#[test]
fn mode_follows_the_flags_in_their_order() {
    assert_eq!(Mode::select(true, true, true, true), Mode::DbReplay);
    assert_eq!(Mode::select(false, true, true, true), Mode::LocalReplay);
    assert_eq!(Mode::select(false, false, true, true), Mode::ApiReplay);
    assert_eq!(Mode::select(false, false, false, true), Mode::Demo);
    assert_eq!(Mode::select(false, false, false, false), Mode::Live);
    assert_eq!(Mode::DbReplay.name(), "DB_REPLAY");
    assert_eq!(Mode::LocalReplay.name(), "LOCAL_REPLAY");
    assert_eq!(Mode::ApiReplay.name(), "API_REPLAY");
    assert_eq!(Mode::Demo.name(), "DEMO");
    assert_eq!(Mode::Live.name(), "LIVE");
    assert_eq!(Mode::DbReplay.label(), "db_replay");
    assert_eq!(Mode::Live.label(), "live");
    assert!(Mode::ApiReplay.is_replay());
    assert!(Mode::LocalReplay.is_replay());
    assert!(!Mode::Demo.is_replay());
    assert!(!Mode::Live.is_replay());
    assert_eq!(effective_min_size(1, 7), 7);
    assert_eq!(effective_min_size(5, 7), 5);
    assert_eq!(effective_min_size(0, 7), 0);
}

#[test]
fn demo_trades_follow_the_generator() {
    let mut state: u64 = 1;
    let mut base: i64 = DEMO_START;
    let mut shadow: u64 = 1;
    let first_draw = xorshift(&mut shadow);
    assert_eq!(first_draw, 1_082_269_761);
    let step = xorshift(&mut shadow) % 5;
    let class = xorshift(&mut shadow) % 100;
    let draw = xorshift(&mut shadow);
    let side_draw = xorshift(&mut shadow) % 100;
    let trade = next_demo_trade(&mut state, &mut base);
    assert_eq!(state, shadow);
    assert_eq!(trade.pause_ms, 11);
    assert_eq!(trade.price, DEMO_START + (step as i64 - 2) * TICK);
    assert_eq!(base, trade.price);
    let size = if class < 50 {
        draw % 5 + 1
    } else if class < 80 {
        draw % 15 + 5
    } else if class < 95 {
        draw % 30 + 20
    } else {
        draw % 100 + 50
    };
    assert_eq!(trade.size as u64, size);
    assert_eq!(trade.side, if side_draw < 52 { Side::Buy } else { Side::Sell });
}

#[test]
fn demo_price_stays_in_its_band() {
    let mut state: u64 = 0x9e37_79b9_7f4a_7c15;
    let mut low: i64 = DEMO_FLOOR;
    let mut high: i64 = DEMO_CEILING;
    let mut far: i64 = 0;
    for _ in 0..500 {
        let a = next_demo_trade(&mut state, &mut low);
        assert!(DEMO_FLOOR <= a.price && a.price <= DEMO_CEILING);
        assert!(1 <= a.size && a.size < 150);
        assert!(10 <= a.pause_ms && a.pause_ms < 50);
        assert_eq!(a.price % TICK, 0);
        let b = next_demo_trade(&mut state, &mut high);
        assert!(DEMO_FLOOR <= b.price && b.price <= DEMO_CEILING);
    }
    assert_eq!(next_demo_trade(&mut state, &mut far).price, DEMO_FLOOR);
    assert_eq!(far, DEMO_FLOOR);
}

#[test]
fn middle_rounds_towards_zero() {
    assert_eq!(middle(100 * PRICE_SCALE, 105 * PRICE_SCALE), 102 * PRICE_SCALE + PRICE_SCALE / 2);
    assert_eq!(middle(1, 2), 1);
    assert_eq!(middle(-1, -2), -1);
    assert_eq!(middle(-3, 2), 0);
    assert_eq!(middle(i64::MAX, i64::MAX), i64::MAX);
    assert_eq!(middle(i64::MIN, i64::MIN), i64::MIN);
}

#[test]
fn collector_keeps_signals_only() {
    let mut collector = SignalCollector::new();
    assert!(collector.signals.is_empty());
    collector.process_message(&WsMessage::Bubble(Bubble {
        id: 0,
        price: 1,
        size: 1,
        side: Side::Buy,
        timestamp: 1,
        is_significant_imbalance: false,
    }));
    collector.process_message(&WsMessage::Connected { symbols: Vec::new() });
    assert!(collector.signals.is_empty());
    collector.process_message(&WsMessage::DeltaFlip(DeltaFlip {
        timestamp: 7,
        flip_type: FlipType::ZeroCross,
        direction: Direction::Bullish,
        cvd_before: -5,
        cvd_after: 9,
    }));
    collector.process_messages(&vec![
        WsMessage::Error { message: "lag".to_string() },
        WsMessage::StackedImbalance(StackedImbalance {
            timestamp: 9,
            side: Side::Sell,
            level_count: 4,
            price_high: 104 * PRICE_SCALE,
            price_low: 100 * PRICE_SCALE,
            total_imbalance: 400,
        }),
    ]);
    assert_eq!(
        collector.signals,
        vec![
            CapturedSignal {
                timestamp: 7,
                signal_type: SignalKind::DeltaFlip,
                direction: Direction::Bullish,
                price: 0,
                strength: None,
                score: None,
            },
            CapturedSignal {
                timestamp: 9,
                signal_type: SignalKind::StackedImbalance,
                direction: Direction::Bearish,
                price: 102 * PRICE_SCALE,
                strength: None,
                score: None,
            },
        ]
    );
}

fn recorded(millis: i64, side: Side, size: u64) -> orderflow_bubbles::trades::Trade {
    orderflow_bubbles::trades::Trade {
        ts_event: millis * 1_000_000 + 999_999,
        price: 100 * PRICE_SCALE,
        size,
        side,
        symbol: "NQH6".to_string(),
    }
}

#[test]
fn test_signal_collector() {
    let collector = SignalCollector::new();
    assert!(collector.signals.is_empty());
}

#[test]
fn replay_closes_a_window_every_hundred_milliseconds() {
    assert!(replay_trades_for_signals(&Vec::new()).is_empty());
    let signals = replay_trades_for_signals(&vec![
        recorded(1_000_000, Side::Buy, 200),
        recorded(1_000_050, Side::Sell, 50),
        recorded(1_000_099, Side::Sell, 0),
        recorded(1_000_100, Side::Sell, 500),
    ]);
    assert_eq!(
        signals,
        vec![
            CapturedSignal {
                timestamp: 1_000_100,
                signal_type: SignalKind::Absorption,
                direction: Direction::Bearish,
                price: 100 * PRICE_SCALE,
                strength: Some(Strength::Medium),
                score: None,
            },
            CapturedSignal {
                timestamp: 1_000_200,
                signal_type: SignalKind::DeltaFlip,
                direction: Direction::Bearish,
                price: 0,
                strength: None,
                score: None,
            },
            CapturedSignal {
                timestamp: 1_000_200,
                signal_type: SignalKind::Absorption,
                direction: Direction::Bullish,
                price: 100 * PRICE_SCALE,
                strength: Some(Strength::Strong),
                score: None,
            },
            CapturedSignal {
                timestamp: 1_000_200,
                signal_type: SignalKind::Confluence,
                direction: Direction::Bearish,
                price: 100 * PRICE_SCALE,
                strength: None,
                score: Some(2),
            },
        ]
    );
}

#[test]
fn test_find_trade_files() {
    assert!(is_trade_file("glbx-mdp3-20251124.trades.csv.zst", None));
    assert!(is_trade_file("glbx-mdp3-20251124.trades.csv.zst", Some("20251124")));
    assert!(!is_trade_file("glbx-mdp3-20251124.trades.csv.zst", Some("20251125")));
    assert!(!is_trade_file("glbx-mdp3-20251124.trades.csv", Some("20251124")));
    assert!(!is_trade_file("notes.txt", None));
}

#[test]
fn test_find_zst_files() {
    assert!(is_trade_file("a.zst", None));
    assert!(is_trade_file("..zst", None));
    assert!(!is_trade_file(".zst", None));
    assert!(!is_trade_file("zst", None));
    assert!(!is_trade_file("a.zst.", None));
    assert!(!is_trade_file("a.ZST", None));
    assert!(!is_trade_file("a.zstd", None));
    assert!(!is_trade_file("", None));
    assert!(is_trade_file("a.zst", Some("")));
    assert!(is_trade_file("a.zst", Some("a.zst")));
    assert!(!is_trade_file("a.zst", Some("a.zst.")));
    assert!(is_trade_file("2025.zst", Some(".zs")));
}

#[test]
fn patterns_are_found_wherever_they_stand() {
    assert!(contains_bytes(b"20251124", b"2025"));
    assert!(contains_bytes(b"20251124", b"1124"));
    assert!(contains_bytes(b"20251124", b"5112"));
    assert!(contains_bytes(b"20251124", b""));
    assert!(contains_bytes(b"", b""));
    assert!(!contains_bytes(b"", b"a"));
    assert!(!contains_bytes(b"20251124", b"1125"));
    assert!(!contains_bytes(b"abc", b"abcd"));
    assert!(contains_bytes(b"aaab", b"aab"));
}
