use orderflow_bubbles::backtest::{
    bars_are_bounded, calculate_statistics, is_rth, signals_can_run, ticks_of, Backtester,
    ExitReason, StrategyConfig, TradeResult, TradeSide,
};
use orderflow_bubbles::bars::{
    aggregate_to_1m_bars, aggregate_to_1s_bars, bars_can_aggregate, trades_can_aggregate, Bar,
};
use orderflow_bubbles::impulse::{
    check_broke_swing, check_uniform_candles, check_volume_increase, detect_impulse_legs,
    find_swing_highs, find_swing_lows, ImpulseLeg, NO_SWING_HIGH, NO_SWING_LOW,
};
use orderflow_bubbles::levels::{
    bucket_to_price, compute_daily_levels, compute_volume_profile, is_near_level,
    levels_can_compute, mid_bucket, price_to_bucket, DailyLevels, PriceBucket,
};
use orderflow_bubbles::lvn::{extract_lvns, LvnLevel};
use orderflow_bubbles::price::PRICE_SCALE;
use orderflow_bubbles::replay::CapturedSignal;
use orderflow_bubbles::trades::{
    day_of, hour_of, millis_of, minute_start, second_start, ImpulseDirection, Trade,
};
use orderflow_bubbles::types::{Direction, Side, SignalKind, Strength};

const S: i64 = 1_000_000_000;
const START: i64 = 1_700_000_040 * S;

fn pts(points: i64) -> i64 {
    points * PRICE_SCALE
}

fn trade(ts_event: i64, price: i64, size: u64, side: Side) -> Trade {
    Trade { ts_event, price, size, side, symbol: "NQH6".to_string() }
}

fn bar(timestamp: i64, open: i64, high: i64, low: i64, close: i64, volume: u64) -> Bar {
    Bar {
        timestamp,
        open,
        high,
        low,
        close,
        volume,
        buy_volume: volume,
        sell_volume: 0,
        delta: volume as i64,
        trade_count: 1,
        symbol: "NQH6".to_string(),
    }
}

#[test]
fn calendar_arithmetic_rounds_down() {
    assert_eq!(second_start(START + 999_999_999), START);
    assert_eq!(second_start(START), START);
    assert_eq!(second_start(-1), -S);
    assert_eq!(second_start(-S), -S);
    assert_eq!(minute_start(START + 19 * S + 5), START);
    assert_eq!(minute_start(START + 20 * S), START);
    assert_eq!(minute_start(START + 60 * S), START + 60 * S);
    assert_eq!(minute_start(START - 1), START - 60 * S);
    assert_eq!(minute_start(-1), -60 * S);
    assert_eq!(day_of(0), 0);
    assert_eq!(day_of(86_400 * S - 1), 0);
    assert_eq!(day_of(86_400 * S), 1);
    assert_eq!(day_of(-1), -1);
    assert_eq!(day_of(START), 19_675);
    assert_eq!(millis_of(1_999_999), 1);
    assert_eq!(millis_of(-1), -1);
    assert_eq!(millis_of(-1_000_000), -1);
    assert_eq!(millis_of(-1_000_001), -2);
    assert_eq!(hour_of(0), 0);
    assert_eq!(hour_of(3_599_999), 0);
    assert_eq!(hour_of(3_600_000), 1);
    assert_eq!(hour_of(86_400_000 * 3 + 15 * 3_600_000 + 7), 15);
}

#[test]
fn test_bar_aggregation() {
    let ts = START;
    let trades = vec![
        trade(ts, pts(100), 5, Side::Buy),
        trade(ts + 100_000_000, pts(101), 3, Side::Sell),
    ];
    assert!(trades_can_aggregate(&trades));
    let bars = aggregate_to_1s_bars(&trades);
    assert_eq!(bars.len(), 1);
    assert_eq!(bars[0].open, pts(100));
    assert_eq!(bars[0].close, pts(101));
    assert_eq!(bars[0].high, pts(101));
    assert_eq!(bars[0].low, pts(100));
    assert_eq!(bars[0].buy_volume, 5);
    assert_eq!(bars[0].sell_volume, 3);
    assert_eq!(bars[0].delta, 2);
}

#[test]
fn bars_open_with_the_earliest_trade_and_close_with_the_last_added() {
    let trades = vec![
        trade(START + 500_000_000, pts(100), 5, Side::Buy),
        trade(START + 600_000_000, pts(101), 3, Side::Sell),
        trade(START + S, pts(99), 2, Side::Buy),
        trade(START + 100_000_000, pts(98), 1, Side::Sell),
        trade(START - 1, pts(97), 7, Side::Sell),
    ];
    let bars = aggregate_to_1s_bars(&trades);
    assert_eq!(
        bars,
        vec![
            Bar {
                timestamp: START - S,
                open: pts(97),
                high: pts(97),
                low: pts(97),
                close: pts(97),
                volume: 7,
                buy_volume: 0,
                sell_volume: 7,
                delta: -7,
                trade_count: 1,
                symbol: "NQH6".to_string(),
            },
            Bar {
                timestamp: START,
                open: pts(98),
                high: pts(101),
                low: pts(98),
                close: pts(98),
                volume: 9,
                buy_volume: 5,
                sell_volume: 4,
                delta: 1,
                trade_count: 3,
                symbol: "NQH6".to_string(),
            },
            Bar {
                timestamp: START + S,
                open: pts(99),
                high: pts(99),
                low: pts(99),
                close: pts(99),
                volume: 2,
                buy_volume: 2,
                sell_volume: 0,
                delta: 2,
                trade_count: 1,
                symbol: "NQH6".to_string(),
            },
        ]
    );
    assert!(bars[1].body_size() == 0 && bars[1].range() == pts(3) as i128);
    assert!(!bars[1].is_bullish());
    assert!(bars_can_aggregate(&bars));
    let minutes = aggregate_to_1m_bars(&bars);
    assert_eq!(minutes.len(), 2);
    assert_eq!(minutes[0].timestamp, START - 60 * S);
    assert_eq!(minutes[0].trade_count, 1);
    assert_eq!(minutes[1].timestamp, START);
    assert_eq!(minutes[1].open, pts(98));
    assert_eq!(minutes[1].close, pts(99));
    assert_eq!(minutes[1].high, pts(101));
    assert_eq!(minutes[1].low, pts(98));
    assert_eq!(minutes[1].volume, 11);
    assert_eq!(minutes[1].delta, 3);
    assert_eq!(minutes[1].trade_count, 4);
    assert!(aggregate_to_1s_bars(&Vec::new()).is_empty());
    assert!(aggregate_to_1m_bars(&Vec::new()).is_empty());
}

#[test]
fn aggregation_refuses_what_does_not_fit() {
    assert!(!trades_can_aggregate(&vec![
        trade(START, 1, u64::MAX / 2, Side::Buy),
        trade(START, 1, 1, Side::Buy)
    ]));
    assert!(trades_can_aggregate(&vec![trade(START, 1, u64::MAX / 2, Side::Buy)]));
    assert!(!trades_can_aggregate(&vec![trade(i64::MIN, 1, 1, Side::Buy)]));
    assert!(!bars_can_aggregate(&vec![bar(i64::MIN, 0, 0, 0, 0, 1)]));
    assert!(bars_can_aggregate(&vec![bar(0, 0, 0, 0, 0, 1)]));
}

#[test]
fn test_volume_profile() {
    assert_eq!(compute_volume_profile(&Vec::new()), (0, 0, 0));
}

#[test]
fn profile_levels_grow_from_the_point_of_control() {
    let b = |bucket: i64, volume: u64| PriceBucket { bucket, volume };
    assert_eq!(
        compute_volume_profile(&vec![b(100, 10), b(101, 50), b(102, 20), b(103, 20)]),
        (pts(101), pts(102), pts(101))
    );
    // On a tie the lower side is taken.
    assert_eq!(
        compute_volume_profile(&vec![b(100, 20), b(101, 40), b(102, 20)]),
        (pts(101), pts(101), pts(100))
    );
    // Neighbours in the profile count, whatever lies between their prices.
    assert_eq!(
        compute_volume_profile(&vec![b(100, 50), b(200, 50)]),
        (pts(100), pts(200), pts(100))
    );
    // The target is 70 % rounded down: 6 of 9.
    assert_eq!(compute_volume_profile(&vec![b(1, 6), b(2, 3)]), (pts(1), pts(1), pts(1)));
    assert_eq!(compute_volume_profile(&vec![b(1, 5), b(2, 4)]), (pts(1), pts(2), pts(1)));
    assert_eq!(compute_volume_profile(&vec![b(-3, 1)]), (pts(-3), pts(-3), pts(-3)));
}

#[test]
fn buckets_round_to_the_nearest_point() {
    assert_eq!(price_to_bucket(pts(100)), 100);
    assert_eq!(price_to_bucket(pts(100) + PRICE_SCALE / 2 - 1), 100);
    assert_eq!(price_to_bucket(pts(100) + PRICE_SCALE / 2), 101);
    assert_eq!(price_to_bucket(-PRICE_SCALE / 2), -1);
    assert_eq!(price_to_bucket(-PRICE_SCALE / 2 + 1), 0);
    assert_eq!(mid_bucket(pts(99), pts(102)), 101);
    assert_eq!(mid_bucket(pts(99), pts(102) - 1), 100);
    assert_eq!(bucket_to_price(21_500), pts(21_500));
    assert!(is_near_level(pts(100), pts(102), pts(2)));
    assert!(!is_near_level(pts(100), pts(102) + 1, pts(2)));
    assert!(is_near_level(pts(104), pts(102), pts(2)));
    assert!(!is_near_level(i64::MIN, i64::MAX, i64::MAX));
}

#[test]
fn daily_levels_follow_the_days() {
    let day = 86_400 * S;
    let a = 19_675 * day;
    let bars = vec![
        bar(a + 10 * S, pts(100), pts(101), pts(99), pts(100) + PRICE_SCALE / 2, 10),
        bar(a + day + 5 * S, pts(102), pts(110), pts(102), pts(108), 7),
        bar(a + 20 * S, pts(100) + PRICE_SCALE / 2, pts(103), pts(101), pts(102), 30),
    ];
    assert!(levels_can_compute(&bars));
    let levels = compute_daily_levels(&bars);
    assert_eq!(
        levels,
        vec![
            DailyLevels {
                date: 19_675,
                symbol: "NQH6".to_string(),
                pdh: pts(103),
                pdl: pts(99),
                pdc: pts(100),
                poc: pts(102),
                vah: pts(102),
                val: pts(102),
                session_high: pts(103),
                session_low: pts(99),
                session_open: pts(100),
                session_close: pts(102),
                total_volume: 40,
            },
            DailyLevels {
                date: 19_676,
                symbol: "NQH6".to_string(),
                pdh: pts(103),
                pdl: pts(99),
                pdc: pts(102),
                poc: pts(106),
                vah: pts(106),
                val: pts(106),
                session_high: pts(110),
                session_low: pts(102),
                session_open: pts(102),
                session_close: pts(108),
                total_volume: 7,
            },
        ]
    );
    assert!(compute_daily_levels(&Vec::new()).is_empty());
    assert!(!levels_can_compute(&vec![bar(0, 0, i64::MAX, 0, 0, 1)]));
}

fn impulse_bars() -> Vec<Bar> {
    let minute = 60 * S;
    let mut bars = Vec::new();
    for k in 0..10 {
        bars.push(bar(
            START + k * minute,
            pts(100),
            pts(100) + PRICE_SCALE / 2,
            pts(100) - PRICE_SCALE / 2,
            pts(100),
            10,
        ));
    }
    for k in 0..3 {
        let open = pts(100 + 12 * k);
        bars.push(bar(START + (10 + k) * minute, open, open + pts(12), open, open + pts(12), 100));
    }
    for k in 13..15 {
        bars.push(bar(START + k * minute, pts(136), pts(136), pts(136), pts(136), 10));
    }
    bars
}

#[test]
fn test_impulse_leg_is_found_and_scored() {
    let bars = impulse_bars();
    let legs = detect_impulse_legs(&bars);
    assert_eq!(
        legs,
        vec![ImpulseLeg {
            start_time: START + 600 * S,
            end_time: START + 720 * S,
            start_price: pts(100),
            end_price: pts(136),
            direction: ImpulseDirection::Up,
            symbol: "NQH6".to_string(),
            date: 19_675,
            score_total: 5,
            broke_swing: true,
            was_fast: true,
            uniform_candles: true,
            volume_increased: true,
            sufficient_size: true,
            num_candles: 3,
            total_volume: 300,
            avg_volume_per_bar: 100,
        }]
    );
    assert!(detect_impulse_legs(&bars[..14].to_vec()).is_empty());
    let mut quiet = bars.clone();
    for b in quiet.iter_mut() {
        b.open = pts(100);
        b.close = pts(100);
    }
    assert!(detect_impulse_legs(&quiet).is_empty());
    // A move of four flat candles is big, fast, breaks the swing and is loud, but not
    // uniform: four counts of five are enough.
    let mut flat = bars.clone();
    for b in flat.iter_mut() {
        b.close = b.open;
    }
    let legs = detect_impulse_legs(&flat);
    assert_eq!(legs.len(), 1);
    assert_eq!(legs[0].num_candles, 4);
    assert_eq!(legs[0].score_total, 4);
    assert!(!legs[0].uniform_candles);
    assert_eq!(legs[0].end_price, pts(136));
    assert_eq!(legs[0].total_volume, 310);
    assert_eq!(legs[0].avg_volume_per_bar, 77);
}

#[test]
fn impulse_counts_one_by_one() {
    let bars = impulse_bars();
    let highs = find_swing_highs(&bars, 10);
    let lows = find_swing_lows(&bars, 10);
    assert_eq!(highs.len(), 15);
    assert_eq!(highs[9], NO_SWING_HIGH);
    assert_eq!(highs[10], pts(100) + PRICE_SCALE / 2);
    assert_eq!(highs[13], pts(136));
    assert_eq!(lows[9], NO_SWING_LOW);
    assert_eq!(lows[10], pts(100) - PRICE_SCALE / 2);
    assert_eq!(lows[14], pts(100) - PRICE_SCALE / 2);
    assert!(check_broke_swing(ImpulseDirection::Up, pts(101), &highs, &lows, 10));
    assert!(!check_broke_swing(ImpulseDirection::Up, pts(100) + PRICE_SCALE / 2, &highs, &lows, 10));
    assert!(!check_broke_swing(ImpulseDirection::Up, pts(500), &highs, &lows, 9));
    assert!(!check_broke_swing(ImpulseDirection::Up, pts(500), &highs, &lows, 15));
    assert!(check_broke_swing(ImpulseDirection::Down, pts(99), &highs, &lows, 10));
    assert!(!check_broke_swing(ImpulseDirection::Down, pts(100), &highs, &lows, 10));
    assert!(check_uniform_candles(&bars, 10, 13, ImpulseDirection::Up));
    assert!(!check_uniform_candles(&bars, 10, 13, ImpulseDirection::Down));
    assert!(!check_uniform_candles(&bars, 10, 10, ImpulseDirection::Up));
    // Flat candles count as down candles, and flat bodies at one price do not overlap.
    assert!(check_uniform_candles(&bars, 0, 5, ImpulseDirection::Down));
    assert!(check_volume_increase(&bars, 10, 13));
    assert!(!check_volume_increase(&bars, 9, 12));
    assert!(!check_volume_increase(&bars, 13, 15));
    assert_eq!(ImpulseDirection::of_move(pts(1), pts(1)), ImpulseDirection::Down);
    assert_eq!(ImpulseDirection::Up.as_str(), "Up");
    assert_eq!(ImpulseDirection::Down.as_str(), "Down");
}

#[test]
fn test_lvn_bucket_conversion() {
    let price = pts(21_500) + PRICE_SCALE / 2;
    let bucket = orderflow_bubbles::lvn::price_to_bucket(price);
    let recovered = orderflow_bubbles::lvn::bucket_to_price(bucket);
    assert!((price - recovered).abs() < PRICE_SCALE / 100);
    assert_eq!(bucket, 43_001);
    assert_eq!(recovered, price);
    assert_eq!(orderflow_bubbles::lvn::price_to_bucket(pts(100) + 249_999_999), 200);
    assert_eq!(orderflow_bubbles::lvn::price_to_bucket(pts(100) + 250_000_000), 201);
    assert_eq!(orderflow_bubbles::lvn::price_to_bucket(-250_000_000), -1);
}

#[test]
fn low_volume_nodes_are_the_thin_buckets_of_a_leg() {
    let legs = detect_impulse_legs(&impulse_bars());
    let start = legs[0].start_time;
    let end = legs[0].end_time;
    let trades = vec![
        trade(start, pts(100), 100, Side::Buy),
        trade(start + 1, pts(100) + PRICE_SCALE / 2, 100, Side::Sell),
        trade(end, pts(101), 5, Side::Buy),
        trade(end + 1, pts(102), 1, Side::Buy),
        trade(start - 1, pts(103), 1, Side::Buy),
    ];
    let nodes = extract_lvns(&trades, &legs);
    assert_eq!(
        nodes,
        vec![LvnLevel {
            price: pts(101),
            volume: 5,
            leg_volume: 205,
            leg_buckets: 3,
            impulse_start_time: start,
            impulse_end_time: end,
            date: 19_675,
            symbol: "NQH6".to_string(),
        }]
    );
    // Two legs over the same trades give their nodes in the order of the prices,
    // and at one price in the order of the legs.
    let mut second = legs[0].clone();
    second.symbol = "ESH6".to_string();
    let both = extract_lvns(&trades, &vec![legs[0].clone(), second]);
    assert_eq!(both.len(), 2);
    assert_eq!(both[0].symbol, "NQH6");
    assert_eq!(both[1].symbol, "ESH6");
    assert!(extract_lvns(&trades, &Vec::new()).is_empty());
    assert!(extract_lvns(&Vec::new(), &legs).is_empty());
}

#[test]
fn test_default_config() {
    let config = StrategyConfig::default();
    assert_eq!(config.stop_loss_points, pts(10));
    assert_eq!(config.take_profit_points, pts(20));
    assert_eq!(config.min_confluence_score, 2);
    assert_eq!(config.max_hold_time_secs, 300);
    assert!(config.rth_only);
    assert!(config.is_ok());
    assert_eq!(config.copy(), config);
}

#[test]
fn test_trade_result_is_winner() {
    let trade = TradeResult {
        entry_time: 0,
        exit_time: 1000,
        entry_price: pts(21_500),
        exit_price: pts(21_510),
        direction: TradeSide::Long,
        signal_type: SignalKind::Confluence,
        pnl_points: pts(10),
        pnl_ticks: 40,
        exit_reason: ExitReason::TakeProfit,
        max_favorable_excursion: pts(12),
        max_adverse_excursion: pts(3),
    };

    assert!(trade.is_winner());
    assert_eq!(trade.pnl_dollars(), 200 * PRICE_SCALE as i128);
    assert_eq!(trade.risk_reward(), 4_000);
    assert_eq!(TradeResult { max_adverse_excursion: 0, ..trade }.risk_reward(), 0);
    assert_eq!(TradeResult { max_adverse_excursion: pts(7), ..trade }.risk_reward(), 1_714);
    assert!(!TradeResult { pnl_points: 0, ..trade }.is_winner());
    assert_eq!(ticks_of(pts(10)), 40);
    assert_eq!(ticks_of(pts(10) + 124_999_999), 40);
    assert_eq!(ticks_of(pts(10) + 125_000_000), 41);
    assert_eq!(ticks_of(-125_000_000), -1);
    assert_eq!(ticks_of(i64::MAX), i32::MAX);
    assert_eq!(ticks_of(i64::MIN), i32::MIN);
    assert_eq!(TradeSide::Long.as_str(), "long");
    assert_eq!(TradeSide::Short.as_str(), "short");
    assert_eq!(ExitReason::StopLoss.as_str(), "stop_loss");
    assert_eq!(ExitReason::TakeProfit.as_str(), "take_profit");
    assert_eq!(ExitReason::Timeout.as_str(), "timeout");
}

const T: u64 = 19_675 * 86_400_000 + 15 * 3_600_000;

fn second_bar(k: i64, high: i64, low: i64, close: i64) -> Bar {
    bar((T as i64 + 1000 * k) * 1_000_000, close, high, low, close, 1)
}

fn signal(timestamp: u64, direction: Direction, price: i64) -> CapturedSignal {
    CapturedSignal {
        timestamp,
        signal_type: SignalKind::Absorption,
        direction,
        price,
        strength: Some(Strength::Medium),
        score: None,
    }
}

fn tester(bars: Vec<Bar>) -> Backtester {
    assert!(bars_are_bounded(&bars));
    Backtester::new(StrategyConfig::default(), bars, Vec::new()).unwrap()
}

#[test]
fn trade_runs_to_its_target() {
    let b = tester(vec![
        second_bar(0, pts(101), pts(99), pts(100)),
        second_bar(1, pts(121), pts(100), pts(120)),
        second_bar(2, pts(80), pts(80), pts(80)),
    ]);
    let t = b.simulate_trade(&signal(T, Direction::Bullish, pts(100))).unwrap();
    assert_eq!(
        t,
        TradeResult {
            entry_time: T,
            exit_time: T + 1000,
            entry_price: pts(100),
            exit_price: pts(120),
            direction: TradeSide::Long,
            signal_type: SignalKind::Absorption,
            pnl_points: pts(20),
            pnl_ticks: 80,
            exit_reason: ExitReason::TakeProfit,
            max_favorable_excursion: pts(21),
            max_adverse_excursion: pts(1),
        }
    );
}

#[test]
fn stop_is_looked_at_before_the_target() {
    let b = tester(vec![second_bar(0, pts(130), pts(85), pts(100))]);
    let long = b.simulate_trade(&signal(T, Direction::Bullish, pts(100))).unwrap();
    assert_eq!(long.exit_reason, ExitReason::StopLoss);
    assert_eq!(long.exit_price, pts(90));
    assert_eq!(long.pnl_points, pts(-10));
    assert_eq!(long.pnl_ticks, -40);
    assert_eq!(long.max_favorable_excursion, pts(30));
    assert_eq!(long.max_adverse_excursion, pts(15));
    let short = b.simulate_trade(&signal(T, Direction::Bearish, pts(100))).unwrap();
    assert_eq!(short.direction, TradeSide::Short);
    assert_eq!(short.exit_reason, ExitReason::StopLoss);
    assert_eq!(short.exit_price, pts(110));
    assert_eq!(short.pnl_points, pts(-10));
    let b = tester(vec![second_bar(0, pts(105), pts(80), pts(100))]);
    let short = b.simulate_trade(&signal(T, Direction::Bearish, pts(100))).unwrap();
    assert_eq!(short.exit_reason, ExitReason::TakeProfit);
    assert_eq!(short.exit_price, pts(80));
    assert_eq!(short.pnl_points, pts(20));
}

#[test]
fn trade_times_out_at_the_last_close_in_reach() {
    let b = tester(vec![
        second_bar(-1, pts(500), pts(0), pts(100)),
        second_bar(0, pts(101), pts(99), pts(100)),
        second_bar(300, pts(103), pts(99), pts(102)),
        second_bar(301, pts(500), pts(0), pts(100)),
    ]);
    let t = b.simulate_trade(&signal(T, Direction::Bullish, pts(100))).unwrap();
    assert_eq!(t.exit_reason, ExitReason::Timeout);
    assert_eq!(t.exit_time, T + 300_000);
    assert_eq!(t.exit_price, pts(102));
    assert_eq!(t.pnl_points, pts(2));
    assert_eq!(t.max_favorable_excursion, pts(3));
    assert_eq!(t.max_adverse_excursion, pts(1));
    // No bar within the holding time: no trade.
    assert_eq!(b.simulate_trade(&signal(T + 400_000, Direction::Bullish, pts(100))), None);
}

#[test]
fn signal_without_a_price_enters_at_the_bars_price() {
    let b = tester(vec![
        second_bar(0, pts(101), pts(99), pts(100)),
        second_bar(2, pts(103), pts(101), pts(102)),
    ]);
    assert_eq!(b.get_price_at(T + 999), Some(pts(100)));
    assert_eq!(b.get_price_at(T + 1000), Some(pts(102)));
    assert_eq!(b.get_price_at(T + 2999), Some(pts(102)));
    assert_eq!(b.get_price_at(T + 3000), None);
    assert_eq!(b.get_price_at(0), Some(pts(100)));
    let t = b.simulate_trade(&signal(T + 1500, Direction::Bullish, 0)).unwrap();
    assert_eq!(t.entry_price, pts(102));
    assert_eq!(t.exit_reason, ExitReason::Timeout);
    assert_eq!(t.pnl_points, 0);
    assert_eq!(b.simulate_trade(&signal(T + 3000, Direction::Bullish, 0)), None);
}

#[test]
fn filter_asks_what_the_strategy_asks() {
    assert!(is_rth(T));
    assert!(is_rth(T - 3_600_000));
    assert!(!is_rth(T - 3_600_001));
    assert!(is_rth(T + 6 * 3_600_000 - 1));
    assert!(!is_rth(T + 6 * 3_600_000));
    let plain = tester(Vec::new());
    assert!(plain.signal_passes_filter(&signal(T, Direction::Bullish, pts(100))));
    assert!(!plain.signal_passes_filter(&signal(T + 6 * 3_600_000, Direction::Bullish, pts(100))));
    let confluence = |score| CapturedSignal {
        signal_type: SignalKind::Confluence,
        strength: None,
        score,
        ..signal(T, Direction::Bullish, pts(100))
    };
    assert!(plain.signal_passes_filter(&confluence(Some(2))));
    assert!(!plain.signal_passes_filter(&confluence(Some(1))));
    assert!(plain.signal_passes_filter(&confluence(None)));
    let levels = vec![DailyLevels {
        date: 19_675,
        symbol: "NQH6".to_string(),
        pdh: pts(150),
        pdl: pts(50),
        pdc: pts(70),
        poc: pts(100),
        vah: pts(110),
        val: pts(90),
        session_high: 0,
        session_low: 0,
        session_open: 0,
        session_close: 0,
        total_volume: 0,
    }];
    let picky = Backtester::new(
        StrategyConfig {
            required_signals: vec![SignalKind::Absorption, SignalKind::Confluence],
            min_strength: Some(Strength::Strong),
            require_key_level: true,
            rth_only: false,
            ..StrategyConfig::default()
        },
        Vec::new(),
        levels,
    )
    .unwrap();
    let strong =
        |price| CapturedSignal { strength: Some(Strength::Strong), ..signal(T, Direction::Bullish, price) };
    assert!(!picky.signal_passes_filter(&signal(T, Direction::Bullish, pts(100))));
    assert!(picky.signal_passes_filter(&strong(pts(102))));
    assert!(!picky.signal_passes_filter(&strong(pts(102) + 1)));
    assert!(picky.signal_passes_filter(&strong(pts(152))));
    assert!(picky.signal_passes_filter(&strong(pts(48))));
    assert!(!picky.signal_passes_filter(&strong(pts(70))));
    assert!(picky.signal_passes_filter(&strong(0)));
    assert!(!picky.signal_passes_filter(&CapturedSignal {
        signal_type: SignalKind::DeltaFlip,
        ..strong(pts(100))
    }));
    assert!(!picky.signal_passes_filter(&CapturedSignal {
        timestamp: T + 86_400_000,
        ..strong(pts(100))
    }));
    assert!(picky.is_at_key_level(pts(100), 19_675));
    assert!(!picky.is_at_key_level(pts(100), 19_676));
    assert!(Backtester::new(
        StrategyConfig { stop_loss_points: -1, ..StrategyConfig::default() },
        Vec::new(),
        Vec::new()
    )
    .is_none());
    assert!(Backtester::new(
        StrategyConfig::default(),
        vec![bar(0, 0, i64::MAX, 0, 0, 1)],
        Vec::new()
    )
    .is_none());
}

#[test]
fn run_takes_one_trade_at_a_time() {
    let b = tester(vec![
        second_bar(0, pts(101), pts(99), pts(100)),
        second_bar(5, pts(121), pts(110), pts(120)),
        second_bar(6, pts(121), pts(119), pts(120)),
        second_bar(7, pts(121), pts(105), pts(106)),
    ]);
    let signals = vec![
        signal(T, Direction::Bullish, pts(100)),
        signal(T + 1000, Direction::Bullish, pts(100)),
        signal(T + 5000, Direction::Bearish, pts(120)),
        signal(T + 6000, Direction::Bullish, pts(116)),
    ];
    assert!(signals_can_run(&signals));
    let results = b.run(&signals);
    assert_eq!(results.total_trades, 2);
    assert_eq!(results.trades.len(), 2);
    assert_eq!(results.trades[0].exit_time, T + 5000);
    assert_eq!(results.trades[0].pnl_points, pts(20));
    assert_eq!(results.trades[1].entry_time, T + 5000);
    assert_eq!(results.trades[1].direction, TradeSide::Short);
    assert_eq!(results.trades[1].exit_reason, ExitReason::Timeout);
    assert_eq!(results.trades[1].exit_time, T + 305_000);
    assert_eq!(results.trades[1].exit_price, pts(106));
    assert_eq!(results.trades[1].pnl_points, pts(14));
    assert_eq!(results.winners, 2);
    assert_eq!(results.total_pnl_points, pts(34) as i128);
    assert_eq!(results.best_hour, Some(15));
    assert_eq!(results.worst_hour, Some(15));
    assert_eq!(results.config, StrategyConfig::default());
    assert!(!signals_can_run(&vec![signal(u64::MAX, Direction::Bullish, 0)]));
}

#[test]
fn statistics_add_up() {
    let t = |entry_time: u64, held: u64, pnl: i64| TradeResult {
        entry_time,
        exit_time: entry_time + held,
        entry_price: 0,
        exit_price: 0,
        direction: TradeSide::Long,
        signal_type: SignalKind::Absorption,
        pnl_points: pnl,
        pnl_ticks: ticks_of(pnl),
        exit_reason: ExitReason::Timeout,
        max_favorable_excursion: 0,
        max_adverse_excursion: 0,
    };
    let hour = 3_600_000;
    let half = PRICE_SCALE / 2;
    let trades = vec![
        t(14 * hour, 1000, pts(20)),
        t(14 * hour + 5, 2000, pts(-10)),
        t(15 * hour, 3000, half),
        t(15 * hour + 1, 4000, -half),
        t(15 * hour + 2, 5000, pts(-3)),
        t(15 * hour + 3, 6000, pts(-4)),
        t(16 * hour, 7000, half + 1),
        t(38 * hour, 8000, pts(1)),
    ];
    let r = calculate_statistics(StrategyConfig::default(), trades.clone());
    assert_eq!(r.trades, trades);
    assert_eq!(r.total_trades, 8);
    assert_eq!(r.winners, 3);
    assert_eq!(r.losers, 3);
    assert_eq!(r.breakeven, 2);
    assert_eq!(r.gross_profit, (pts(21) + half + 1) as i128);
    assert_eq!(r.gross_loss, pts(17) as i128);
    assert_eq!(r.total_pnl_points, (pts(4) + half + 1) as i128);
    // The running total peaks at 20 and falls to 3 after the sixth trade.
    assert_eq!(r.max_drawdown_points, pts(17) as i128);
    // The small win after the first loss starts a run that the small loss does not end.
    assert_eq!(r.max_consecutive_wins, 2);
    assert_eq!(r.max_consecutive_losses, 2);
    assert_eq!(r.total_hold_ms, 36_000);
    // Hour 14 made 10 and 1 with the trade of the next day, hour 15 lost 7, hour 16 made a little.
    assert_eq!(r.best_hour, Some(14));
    assert_eq!(r.worst_hour, Some(15));
    let none = calculate_statistics(StrategyConfig::default(), Vec::new());
    assert_eq!(none.total_trades, 0);
    assert_eq!(none.best_hour, None);
    assert_eq!(none.worst_hour, None);
    assert_eq!(none.max_drawdown_points, 0);
}
