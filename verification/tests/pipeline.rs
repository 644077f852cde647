use orderflow_bubbles::config::{
    default_min_size, default_sound_enabled, default_symbols, tick_period_ms, UserConfig,
};
use orderflow_bubbles::db_replay::{bar_to_trades, bar_trades_at, BarRecord};
use orderflow_bubbles::demo::xorshift;
use orderflow_bubbles::price::PRICE_SCALE;
use orderflow_bubbles::query::{
    ExportQueryParams, SessionsQueryParams, SignalQuery, SignalsQueryParams,
};
use orderflow_bubbles::replay::convert_to_processing_trade;
use orderflow_bubbles::trades::ImpulseDirection;
use orderflow_bubbles::types::{Side, Trade};

#[test]
fn test_impulse_direction() {
    assert_eq!(ImpulseDirection::Up, ImpulseDirection::Up);
}

fn bar(timestamp: &str, buy: i64, sell: i64) -> BarRecord {
    BarRecord {
        timestamp: timestamp.to_string(),
        open: 100 * PRICE_SCALE,
        high: 102 * PRICE_SCALE,
        low: 99 * PRICE_SCALE,
        close: 101 * PRICE_SCALE,
        volume: buy + sell,
        buy_volume: buy,
        sell_volume: sell,
        delta: buy - sell,
        trade_count: 7,
        symbol: "NQH6".to_string(),
    }
}

#[test]
fn test_bar_to_trades() {
    let trades = bar_to_trades(&bar("2024-12-20T09:30:00Z", 12, 5));
    assert_eq!(
        trades,
        vec![
            Trade {
                symbol: "NQH6".to_string(),
                price: 101 * PRICE_SCALE,
                size: 12,
                side: Side::Buy,
                timestamp: 1_734_687_000_000,
            },
            Trade {
                symbol: "NQH6".to_string(),
                price: 101 * PRICE_SCALE,
                size: 5,
                side: Side::Sell,
                timestamp: 1_734_687_000_000,
            },
        ]
    );
}

#[test]
fn bar_time_follows_the_offset_and_the_fraction() {
    let trades = bar_to_trades(&bar("1970-01-01T01:00:01.444+01:00", 1, 0));
    assert_eq!(trades.len(), 1);
    assert_eq!(trades[0].timestamp, 1_444);
    assert_eq!(trades[0].side, Side::Buy);
}

#[test]
fn bar_with_unreadable_time_is_at_zero() {
    let trades = bar_to_trades(&bar("yesterday", 0, 9));
    assert_eq!(trades.len(), 1);
    assert_eq!(trades[0].timestamp, 0);
    assert_eq!(trades[0].side, Side::Sell);
    assert_eq!(trades[0].size, 9);
}

#[test]
fn bar_without_volume_gives_no_trade() {
    assert!(bar_to_trades(&bar("2024-12-20T09:30:00Z", 0, 0)).is_empty());
    assert!(bar_trades_at(&bar("", -3, 0), 5).is_empty());
}

#[test]
fn bar_volume_keeps_its_low_bits() {
    let trades = bar_trades_at(&bar("", 0x1_0000_0007, 3), 42);
    assert_eq!(trades[0].size, 7);
    assert_eq!(trades[1].size, 3);
    assert_eq!(trades[0].timestamp, 42);
}

#[test]
fn recorded_trade_converts_field_by_field() {
    let recorded = orderflow_bubbles::trades::Trade {
        ts_event: 1_700_000_000_123_456_789,
        price: 21_500 * PRICE_SCALE + PRICE_SCALE / 4,
        size: 9,
        side: Side::Sell,
        symbol: "NQZ5".to_string(),
    };
    let t = convert_to_processing_trade(&recorded);
    assert_eq!(
        t,
        Trade {
            symbol: "NQZ5".to_string(),
            price: 21_500 * PRICE_SCALE + PRICE_SCALE / 4,
            size: 9,
            side: Side::Sell,
            timestamp: 1_700_000_000_123,
        }
    );
}

#[test]
fn recorded_trade_size_keeps_its_low_bits() {
    let recorded = orderflow_bubbles::trades::Trade {
        ts_event: -1_000_000,
        price: 0,
        size: 0x2_0000_0003,
        side: Side::Buy,
        symbol: String::new(),
    };
    let t = convert_to_processing_trade(&recorded);
    assert_eq!(t.size, 3);
    assert_eq!(t.timestamp, u64::MAX);
}

#[test]
fn xorshift_steps_as_computed_by_hand() {
    let mut state: u64 = 1;
    let x = xorshift(&mut state);
    assert_eq!(x, 1_082_269_761);
    assert_eq!(state, x);
    let mut zero: u64 = 0;
    assert_eq!(xorshift(&mut zero), 0);
    let mut s: u64 = 0x1234_5678_9abc_def0;
    let mut y = s;
    y ^= y << 13;
    y ^= y >> 7;
    y ^= y << 17;
    assert_eq!(xorshift(&mut s), y);
}

#[test]
fn defaults_are_as_documented() {
    assert_eq!(default_min_size(), 1);
    assert!(default_sound_enabled());
    assert_eq!(default_symbols(), vec!["NQ.c.0".to_string(), "ES.c.0".to_string()]);
    let bare = UserConfig::default();
    assert_eq!(bare.min_size, 0);
    assert!(!bare.sound_enabled);
    assert!(bare.symbols.is_empty());
    let filled = UserConfig::with_defaults();
    assert_eq!(filled.min_size, 1);
    assert!(filled.admits(1));
    assert!(!UserConfig { min_size: 5, ..filled }.admits(4));
}

#[test]
fn tick_period_scales_with_speed_down_to_fifty() {
    assert_eq!(tick_period_ms(1), 1000);
    assert_eq!(tick_period_ms(3), 333);
    assert_eq!(tick_period_ms(20), 50);
    assert_eq!(tick_period_ms(21), 50);
    assert_eq!(tick_period_ms(19), 52);
    assert_eq!(tick_period_ms(100), 50);
    assert_eq!(tick_period_ms(u32::MAX), 50);
}

#[test]
fn queries_carry_the_request_over() {
    let q = SignalsQueryParams {
        limit: Some(500),
        offset: Some(40),
        signal_type: Some("absorption".to_string()),
        direction: None,
        outcome: Some("win".to_string()),
        start_date: None,
        end_date: Some("2024-12-20T09:30:00Z".to_string()),
    }
    .into_query();
    assert_eq!(q.page_limit(), 200);
    assert_eq!(q.page_offset(), 40);
    assert_eq!(q.signal_type.as_deref(), Some("absorption"));
    assert_eq!(q.outcome.as_deref(), Some("win"));
    assert_eq!(q.end_date.as_deref(), Some("2024-12-20T09:30:00Z"));
    assert!(q.direction.is_none());

    let empty = SignalQuery {
        limit: None,
        offset: None,
        signal_type: None,
        direction: None,
        outcome: None,
        start_date: None,
        end_date: None,
    };
    assert_eq!(empty.page_limit(), 50);
    assert_eq!(empty.page_offset(), 0);
    assert_eq!(SignalQuery { limit: Some(7), ..empty.clone() }.page_limit(), 7);

    let e = ExportQueryParams {
        signal_type: None,
        direction: Some("bullish".to_string()),
        outcome: None,
        start_date: None,
        end_date: None,
        format: Some("csv".to_string()),
    }
    .into_query();
    assert_eq!(e.limit, Some(10_000));
    assert_eq!(e.offset, None);
    assert_eq!(e.direction.as_deref(), Some("bullish"));

    assert_eq!(SessionsQueryParams { limit: None }.page_limit(), 20);
    assert_eq!(SessionsQueryParams { limit: Some(1000) }.page_limit(), 100);
    assert_eq!(SessionsQueryParams { limit: Some(3) }.page_limit(), 3);
}

#[test]
fn content_range_names_its_total_after_the_slash() {
    use_total()
}

fn use_total() {
    let first = orderflow_bubbles::query::total_after_slash;
    assert_eq!(first("0-49/1234"), 1234);
    assert_eq!(first("*/0"), 0);
    assert_eq!(first("0-49/"), 0);
    assert_eq!(first("0-49"), 0);
    assert_eq!(first("0-49/12/34"), 12);
    assert_eq!(first("0-49/+7"), 7);
    assert_eq!(first("0-49/+"), 0);
    assert_eq!(first("0-49/4294967295"), 4_294_967_295);
    assert_eq!(first("/4294967296"), 0);
    assert_eq!(first("/00012"), 12);
    assert_eq!(first("/000000000000000000000000000000000012"), 12);
    assert_eq!(first("/99999999999999999999999999999999"), 0);
    assert_eq!(first("/12a"), 0);
    assert_eq!(first("/-5"), 0);
    assert_eq!(first("/ 5"), 0);
    assert_eq!(first(""), 0);
    assert_eq!(first("é/7"), 7);
    let last = orderflow_bubbles::query::total_after_last_slash;
    assert_eq!(last("0-999/12345"), 12_345);
    assert_eq!(last("12345"), 12_345);
    assert_eq!(last("a/b/77"), 77);
    assert_eq!(last("77/"), 0);
    assert_eq!(last(""), 0);
    assert_eq!(last("0-999/x"), 0);
    assert_eq!(last("/18446744073709551615"), usize::MAX);
    assert_eq!(last("/18446744073709551616"), 0);
}

#[test]
fn stored_signals_roll_up_by_direction_and_kind() {
    use_roll_up()
}

fn use_roll_up() {
    let row = |kind: &str, direction: &str, outcome: Option<&str>| {
        orderflow_bubbles::query::SignalSummary {
            signal_type: kind.to_string(),
            direction: direction.to_string(),
            outcome: outcome.map(|o| o.to_string()),
        }
    };
    let stats = orderflow_bubbles::query::aggregate_signals(&vec![
        row("absorption", "bullish", Some("win")),
        row("delta_flip", "bearish", None),
        row("absorption", "bearish", Some("loss")),
        row("absorption", "sideways", Some("breakeven")),
        row("confluence", "bullish", Some("won")),
        row("absorption", "bullish", Some("win")),
    ]);
    assert_eq!(stats.total_signals, 6);
    assert_eq!(stats.by_direction.bullish, 3);
    assert_eq!(stats.by_direction.bearish, 3);
    let kinds: Vec<&str> = stats.by_type.iter().map(|t| t.signal_type.as_str()).collect();
    assert_eq!(kinds, vec!["absorption", "delta_flip", "confluence"]);
    let a = &stats.by_type[0];
    assert_eq!((a.count, a.wins, a.losses, a.breakeven), (4, 2, 1, 1));
    let d = &stats.by_type[1];
    assert_eq!((d.count, d.wins, d.losses, d.breakeven), (1, 0, 0, 0));
    let c = &stats.by_type[2];
    assert_eq!((c.count, c.wins, c.losses, c.breakeven), (1, 0, 0, 0));
    let none = orderflow_bubbles::query::aggregate_signals(&Vec::new());
    assert_eq!(none.total_signals, 0);
    assert!(none.by_type.is_empty());
}
