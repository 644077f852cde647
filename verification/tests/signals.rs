use orderflow_bubbles::price::PRICE_SCALE;
use orderflow_bubbles::signals::{
    classify, detect_confluence, latest_direction, scored, signal_stats, RecentSignal,
    SignalTracker,
};
use orderflow_bubbles::types::{
    AbsorptionType, Direction, FlipType, Outcome, Side, SignalKind, SignalRecord, SignalStats,
    Strength,
};

const P100: i64 = 100 * PRICE_SCALE;

fn recent(timestamp: u64, kind: SignalKind, direction: Direction) -> RecentSignal {
    RecentSignal { timestamp, kind, direction, price: P100 }
}

fn record(kind: SignalKind, direction: Direction, price: i64) -> SignalRecord {
    SignalRecord {
        timestamp: 0,
        price,
        signal_type: kind,
        direction,
        price_after_1m: None,
        price_after_5m: None,
        outcome: None,
    }
}

#[test]
fn confluence_of_flip_and_absorption() {
    let mut tracker = SignalTracker::new();
    assert!(tracker.record_signal(11_000, SignalKind::DeltaFlip, Direction::Bullish, P100).is_none());
    let c = tracker
        .record_signal(12_000, SignalKind::Absorption, Direction::Bullish, P100 + 1)
        .unwrap();
    assert_eq!(c.timestamp, 12_000);
    assert_eq!(c.price, P100 + 1);
    assert_eq!(c.direction, Direction::Bullish);
    assert_eq!(c.score, 2);
    assert_eq!(c.signals, vec![SignalKind::DeltaFlip, SignalKind::Absorption]);
    assert_eq!(c.price_after_1m, None);
    assert_eq!(c.price_after_5m, None);
    // A third bullish signal within the cooldown gives no further confluence,
    // nor does a fresh pair.
    assert!(tracker
        .record_signal(13_000, SignalKind::StackedImbalance, Direction::Bullish, P100)
        .is_none());
    assert!(tracker.record_signal(14_000, SignalKind::DeltaFlip, Direction::Bullish, P100).is_none());
    assert!(tracker.record_signal(21_999, SignalKind::Absorption, Direction::Bullish, P100).is_none());
    let kinds: Vec<SignalKind> = tracker.records().iter().map(|r| r.signal_type).collect();
    assert_eq!(
        kinds,
        vec![
            SignalKind::DeltaFlip,
            SignalKind::Absorption,
            SignalKind::Confluence,
            SignalKind::StackedImbalance,
            SignalKind::DeltaFlip,
            SignalKind::Absorption,
        ]
    );
    let stored = tracker.records()[2];
    assert_eq!(stored.timestamp, 12_000);
    assert_eq!(stored.price, P100 + 1);
    assert_eq!(stored.direction, Direction::Bullish);
    // Once the cooldown has passed, a pair within five seconds is a confluence again.
    assert!(tracker.record_signal(22_000, SignalKind::DeltaFlip, Direction::Bearish, P100).is_none());
    let again = tracker
        .record_signal(26_999, SignalKind::StackedImbalance, Direction::Bearish, P100)
        .unwrap();
    assert_eq!(again.direction, Direction::Bearish);
    // The bullish absorption of five seconds before is still recent: its kind counts
    // towards the score though it does not agree.
    assert_eq!(again.score, 3);
    assert_eq!(
        again.signals,
        vec![SignalKind::DeltaFlip, SignalKind::Absorption, SignalKind::StackedImbalance]
    );
}

#[test]
fn confluence_needs_two_kinds_that_agree() {
    let same_kind = vec![
        recent(10_000, SignalKind::Absorption, Direction::Bullish),
        recent(10_500, SignalKind::Absorption, Direction::Bullish),
    ];
    assert_eq!(detect_confluence(&same_kind, 0, 11_000, P100), None);
    let disagree = vec![
        recent(10_000, SignalKind::Absorption, Direction::Bullish),
        recent(10_500, SignalKind::DeltaFlip, Direction::Bearish),
    ];
    assert_eq!(detect_confluence(&disagree, 0, 11_000, P100), None);
    let latest_counts = vec![
        recent(10_000, SignalKind::Absorption, Direction::Bullish),
        recent(10_200, SignalKind::DeltaFlip, Direction::Bullish),
        recent(10_500, SignalKind::Absorption, Direction::Bearish),
    ];
    assert_eq!(detect_confluence(&latest_counts, 0, 11_000, P100), None);
    let three = vec![
        recent(10_000, SignalKind::StackedImbalance, Direction::Bearish),
        recent(10_200, SignalKind::DeltaFlip, Direction::Bullish),
        recent(10_500, SignalKind::Absorption, Direction::Bearish),
    ];
    let c = detect_confluence(&three, 1_000, 11_000, P100).unwrap();
    assert_eq!(c.direction, Direction::Bearish);
    assert_eq!(c.score, 3);
    assert_eq!(
        c.signals,
        vec![SignalKind::DeltaFlip, SignalKind::Absorption, SignalKind::StackedImbalance]
    );
    assert_eq!(detect_confluence(&three, 1_001, 11_000, P100), None);
    assert_eq!(detect_confluence(&Vec::new(), 0, 11_000, P100), None);
    assert_eq!(latest_direction(&latest_counts, SignalKind::Absorption), Some(Direction::Bearish));
    assert_eq!(latest_direction(&latest_counts, SignalKind::Confluence), None);
}

#[test]
fn recent_signals_leave_after_five_seconds() {
    let mut tracker = SignalTracker::new();
    assert!(tracker.record_signal(10_000, SignalKind::DeltaFlip, Direction::Bullish, P100).is_none());
    assert!(tracker.record_signal(15_001, SignalKind::Absorption, Direction::Bullish, P100).is_none());
    let mut tracker = SignalTracker::new();
    assert!(tracker.record_signal(10_000, SignalKind::DeltaFlip, Direction::Bullish, P100).is_none());
    assert!(tracker.record_signal(15_000, SignalKind::Absorption, Direction::Bullish, P100).is_some());
}

#[test]
fn outcome_needs_a_move_of_two_points() {
    let two = 2 * PRICE_SCALE;
    assert_eq!(classify(Direction::Bullish, P100, P100 + two), Outcome::Win);
    assert_eq!(classify(Direction::Bullish, P100, P100 + two - 1), Outcome::Breakeven);
    assert_eq!(classify(Direction::Bullish, P100, P100 - two), Outcome::Loss);
    assert_eq!(classify(Direction::Bullish, P100, P100 - two + 1), Outcome::Breakeven);
    assert_eq!(classify(Direction::Bearish, P100, P100 - two), Outcome::Win);
    assert_eq!(classify(Direction::Bearish, P100, P100 + two), Outcome::Loss);
    assert_eq!(classify(Direction::Bearish, P100, P100), Outcome::Breakeven);
    assert_eq!(classify(Direction::Bullish, i64::MIN, i64::MAX), Outcome::Win);
}

#[test]
fn record_is_scored_once_at_each_horizon() {
    let r = SignalRecord { timestamp: 1_000, ..record(SignalKind::Absorption, Direction::Bullish, P100) };
    assert_eq!(scored(&r, 60_999, P100 + 5), r);
    let one = scored(&r, 61_000, P100 + PRICE_SCALE / 2);
    assert_eq!(one.price_after_1m, Some(P100 + PRICE_SCALE / 2));
    assert_eq!(one.price_after_5m, None);
    assert_eq!(one.outcome, None);
    assert_eq!(scored(&one, 200_000, P100 + 9), one);
    let five = scored(&one, 301_000, P100 + 3 * PRICE_SCALE);
    assert_eq!(five.price_after_1m, Some(P100 + PRICE_SCALE / 2));
    assert_eq!(five.price_after_5m, Some(P100 + 3 * PRICE_SCALE));
    assert_eq!(five.outcome, Some(Outcome::Win));
    assert_eq!(scored(&five, 900_000, 0), five);
    let late = scored(&r, 301_000, P100 - 2 * PRICE_SCALE);
    assert_eq!(late.price_after_1m, Some(P100 - 2 * PRICE_SCALE));
    assert_eq!(late.price_after_5m, Some(P100 - 2 * PRICE_SCALE));
    assert_eq!(late.outcome, Some(Outcome::Loss));
}

#[test]
fn signal_is_scored_and_evicted_in_the_tracker() {
    let start = 1_000;
    let mut tracker = SignalTracker::new();
    tracker.record_signal(start, SignalKind::Absorption, Direction::Bullish, P100);
    tracker.update_signal_outcomes(start);
    assert_eq!(tracker.records()[0].price_after_1m, None);

    tracker.record_signal(start + 60_000, SignalKind::DeltaFlip, Direction::Bearish, P100 + PRICE_SCALE / 2);
    assert_eq!(tracker.current_price(), P100 + PRICE_SCALE / 2);
    tracker.update_signal_outcomes(start + 60_000);
    let first = tracker.records()[0];
    assert_eq!(first.price_after_1m, Some(P100 + PRICE_SCALE / 2));
    assert_eq!(first.price_after_5m, None);
    assert_eq!(first.outcome, None);

    tracker.record_signal(start + 300_000, SignalKind::DeltaFlip, Direction::Bearish, P100 + 3 * PRICE_SCALE);
    tracker.update_signal_outcomes(start + 300_000);
    let first = tracker.records()[0];
    assert_eq!(first.price_after_1m, Some(P100 + PRICE_SCALE / 2));
    assert_eq!(first.price_after_5m, Some(P100 + 3 * PRICE_SCALE));
    assert_eq!(first.outcome, Some(Outcome::Win));
    let stats = tracker.calculate_signal_stats(SignalKind::Absorption);
    assert_eq!(
        stats,
        SignalStats {
            count: 1,
            bullish_count: 1,
            bearish_count: 0,
            wins: 1,
            losses: 0,
            avg_move_1m: PRICE_SCALE / 2,
            avg_move_5m: 3 * PRICE_SCALE,
            win_rate: 10_000,
        }
    );
    let flips = tracker.calculate_signal_stats(SignalKind::DeltaFlip);
    assert_eq!(flips.count, 2);
    assert_eq!(flips.bearish_count, 2);
    assert_eq!(flips.avg_move_1m, 5 * PRICE_SCALE / 2);
    assert_eq!(flips.avg_move_5m, 0);
    assert_eq!(flips.win_rate, 0);

    tracker.update_signal_outcomes(start + 1_800_000);
    assert_eq!(tracker.records().len(), 3);
    tracker.update_signal_outcomes(start + 1_800_001);
    assert_eq!(tracker.records().len(), 2);
    assert_eq!(tracker.calculate_signal_stats(SignalKind::Absorption).count, 0);
    let session = tracker.session_stats(7, 99);
    assert_eq!(session.session_start, 7);
    assert_eq!(session.total_volume, 99);
    assert_eq!(session.absorptions, SignalStats {
        count: 0,
        bullish_count: 0,
        bearish_count: 0,
        wins: 0,
        losses: 0,
        avg_move_1m: 0,
        avg_move_5m: 0,
        win_rate: 0,
    });
    assert_eq!(session.current_price, P100 + 3 * PRICE_SCALE);
    assert_eq!(session.session_high, P100 + 3 * PRICE_SCALE);
    assert_eq!(session.session_low, P100);
    assert_eq!(tracker.session_stats(7, 99), session);
}

#[test]
fn statistics_before_any_signal_report_the_current_price() {
    let tracker = SignalTracker::new();
    let s = tracker.session_stats(5, 0);
    assert_eq!(s.current_price, 0);
    assert_eq!(s.session_high, 0);
    assert_eq!(s.session_low, 0);
    assert_eq!(s.delta_flips.count, 0);
}

#[test]
fn statistics_round_means_towards_zero_and_rates_down() {
    let r = |direction, price, one: Option<i64>, five: Option<i64>, outcome| SignalRecord {
        price_after_1m: one,
        price_after_5m: five,
        outcome,
        ..record(SignalKind::StackedImbalance, direction, price)
    };
    let history = vec![
        r(Direction::Bullish, 10, Some(9), Some(14), Some(Outcome::Win)),
        r(Direction::Bearish, 10, Some(8), Some(3), Some(Outcome::Win)),
        r(Direction::Bearish, 10, None, Some(12), Some(Outcome::Loss)),
        r(Direction::Bullish, 10, Some(10), None, None),
        r(Direction::Bullish, 10, None, Some(10), Some(Outcome::Breakeven)),
        record(SignalKind::DeltaFlip, Direction::Bullish, 1_000),
    ];
    let s = signal_stats(&history, SignalKind::StackedImbalance);
    assert_eq!(s.count, 5);
    assert_eq!(s.bullish_count, 3);
    assert_eq!(s.bearish_count, 2);
    assert_eq!(s.wins, 2);
    assert_eq!(s.losses, 1);
    // moves after a minute: -1, -2, 0: the mean -1 exactly
    assert_eq!(s.avg_move_1m, -1);
    // moves after five: 4, -7, 2, 0: the mean -1/4, towards zero
    assert_eq!(s.avg_move_5m, 0);
    assert_eq!(s.win_rate, 6_666);
    let flips = signal_stats(&history, SignalKind::DeltaFlip);
    assert_eq!(flips.count, 1);
    assert_eq!(flips.win_rate, 0);
    let down = vec![
        r(Direction::Bullish, 10, Some(9), None, None),
        r(Direction::Bullish, 10, Some(8), None, None),
    ];
    // moves -1 and -2: the mean -3/2 rounds to -1
    assert_eq!(signal_stats(&down, SignalKind::StackedImbalance).avg_move_1m, -1);
    let up = vec![
        r(Direction::Bullish, 10, Some(11), None, None),
        r(Direction::Bullish, 10, Some(12), None, None),
    ];
    assert_eq!(signal_stats(&up, SignalKind::StackedImbalance).avg_move_1m, 1);
    assert_eq!(signal_stats(&Vec::new(), SignalKind::Confluence).count, 0);
}

#[test]
fn statistics_are_due_every_five_seconds() {
    let mut tracker = SignalTracker::new();
    assert!(tracker.broadcast_stats(4_999, 0, 0).is_none());
    assert!(tracker.broadcast_stats(5_000, 0, 0).is_some());
    assert!(tracker.broadcast_stats(9_999, 0, 0).is_none());
    let again = tracker.broadcast_stats(10_000, 3, 4).unwrap();
    assert_eq!(again.session_start, 3);
    assert_eq!(again.total_volume, 4);
}

#[test]
fn names_at_the_serialization_edge() {
    assert_eq!(Side::Buy.as_str(), "buy");
    assert_eq!(Side::Sell.as_str(), "sell");
    assert_eq!(Direction::Bullish.as_str(), "bullish");
    assert_eq!(Direction::Bearish.as_str(), "bearish");
    assert_eq!(SignalKind::DeltaFlip.as_str(), "delta_flip");
    assert_eq!(SignalKind::Absorption.as_str(), "absorption");
    assert_eq!(SignalKind::StackedImbalance.as_str(), "stacked_imbalance");
    assert_eq!(SignalKind::Confluence.as_str(), "confluence");
    assert_eq!(AbsorptionType::Buying.as_str(), "buying");
    assert_eq!(AbsorptionType::Selling.as_str(), "selling");
    assert_eq!(FlipType::ZeroCross.as_str(), "zero_cross");
    assert_eq!(FlipType::Reversal.as_str(), "reversal");
    assert_eq!(Outcome::Win.as_str(), "win");
    assert_eq!(Outcome::Loss.as_str(), "loss");
    assert_eq!(Outcome::Breakeven.as_str(), "breakeven");
    assert_eq!(Strength::Weak.as_str(), "weak");
    assert_eq!(Strength::Medium.ordinal(), 1);
    assert_eq!(Strength::from_ordinal(2), Strength::Strong);
    assert_eq!(Strength::from_ordinal(9), Strength::Defended);
    assert_eq!(Side::Buy.direction(), Direction::Bullish);
    assert_eq!(Side::Sell.direction(), Direction::Bearish);
    assert_eq!(AbsorptionType::Buying.direction(), Direction::Bearish);
    assert_eq!(AbsorptionType::Selling.direction(), Direction::Bullish);
}
