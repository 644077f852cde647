use orderflow_bubbles::absorption::{
    absorb, absorbed, absorption_event, against_trend, calculate_strength, detect_absorption,
    find_zone, min_delta_met, retention, zone_reports, VolumeSnapshot, Zone,
};
use orderflow_bubbles::cvd::{cvd_5s_ago, sign, CvdSample, FlipState};
use orderflow_bubbles::price::{PRICE_SCALE, TICK};
use orderflow_bubbles::profile::{KeyLevels, VolumeProfile};
use orderflow_bubbles::retention::{elapsed, expire, within, Retained};
use orderflow_bubbles::stacked::{
    best_stack, bucket_side, detect_stacked_imbalances, mid_price, point_buckets, PointBucket,
    Stack, StackState,
};
use orderflow_bubbles::types::{
    AbsorptionType, Direction, FlipType, Side, StackedImbalance, Strength,
};
use orderflow_bubbles::window::summarize;
use orderflow_bubbles::types::Trade;

const P100: i64 = 100 * PRICE_SCALE;

fn history(now: u64, windows: u64, volume: u64) -> Vec<VolumeSnapshot> {
    (0..windows)
        .map(|k| VolumeSnapshot { timestamp: now - 1000 * k, volume, delta: 0 })
        .collect()
}

fn at_poc() -> Option<KeyLevels> {
    Some(KeyLevels { poc: P100, vah: P100 + 10 * PRICE_SCALE, val: P100 - 10 * PRICE_SCALE })
}

fn t(side: Side, size: u32, price: i64) -> Trade {
    Trade { symbol: "NQ".to_string(), price, size, side, timestamp: 0 }
}

#[test]
fn window_summary_weighs_the_dominant_side() {
    let s = summarize(&vec![
        t(Side::Buy, 1, P100),
        t(Side::Sell, 2, P100 + 7 * TICK),
        t(Side::Buy, 2, P100 + TICK),
    ]);
    assert_eq!(s.buy_volume, 3);
    assert_eq!(s.sell_volume, 2);
    assert_eq!(s.total_volume, 5);
    assert_eq!(s.delta, 1);
    assert_eq!(s.dominant_side, Side::Buy);
    assert_eq!(s.dominant_volume, 3);
    assert_eq!(s.price, 100_166_666_666);
    assert_eq!(s.first_price, P100);
    assert_eq!(s.last_price, P100 + TICK);
    assert_eq!(s.price_change, TICK);
    assert!(s.is_significant_imbalance);
}

#[test]
fn significance_starts_above_fifteen_percent() {
    let at = summarize(&vec![t(Side::Buy, 23, P100), t(Side::Sell, 17, P100)]);
    assert_eq!(at.delta, 6);
    assert!(!at.is_significant_imbalance);
    let above = summarize(&vec![t(Side::Buy, 24, P100), t(Side::Sell, 17, P100)]);
    assert_eq!(above.delta, 7);
    assert!(above.is_significant_imbalance);
    let sell = summarize(&vec![t(Side::Buy, 17, P100), t(Side::Sell, 24, P100)]);
    assert_eq!(sell.delta, -7);
    assert!(sell.is_significant_imbalance);
    assert_eq!(sell.dominant_side, Side::Sell);
    assert_eq!(sell.dominant_volume, 24);
}

#[test]
fn window_without_dominant_volume_falls_back_to_the_mean_price() {
    let s = summarize(&vec![t(Side::Buy, 0, P100), t(Side::Buy, 0, P100 + 3)]);
    assert_eq!(s.total_volume, 0);
    assert_eq!(s.dominant_side, Side::Sell);
    assert_eq!(s.dominant_volume, 0);
    assert_eq!(s.price, P100 + 1);
    assert!(!s.is_significant_imbalance);
}

#[test]
fn retention_windows_are_inclusive() {
    assert!(within(1_000, 6_000, 5_000));
    assert!(!within(1_000, 6_001, 5_000));
    assert!(within(9_000, 6_000, 5_000));
    assert!(within(0, 0, 0));
    assert!(elapsed(1_000, 3_000, 2_000));
    assert!(!elapsed(1_000, 2_999, 2_000));
    assert!(!elapsed(9_000, 6_000, 2_000));
    assert!(elapsed(5, 5, 0));
    assert!(!elapsed(6, 5, 0));
}

#[test]
fn histories_drop_what_is_too_old() {
    let mut volumes = vec![
        VolumeSnapshot { timestamp: 0, volume: 1, delta: 1 },
        VolumeSnapshot { timestamp: 40_000, volume: 2, delta: 2 },
        VolumeSnapshot { timestamp: 40_001, volume: 3, delta: 3 },
        VolumeSnapshot { timestamp: 100_000, volume: 4, delta: 4 },
    ];
    expire(&mut volumes, 100_000);
    assert_eq!(volumes.iter().map(|v| v.volume).collect::<Vec<_>>(), vec![2, 3, 4]);
    expire(&mut volumes, 100_001);
    assert_eq!(volumes.iter().map(|v| v.volume).collect::<Vec<_>>(), vec![3, 4]);

    let mut samples = vec![
        CvdSample { timestamp: 69_999, cvd: 1 },
        CvdSample { timestamp: 70_000, cvd: 2 },
        CvdSample { timestamp: 100_000, cvd: 3 },
    ];
    expire(&mut samples, 100_000);
    assert_eq!(samples.iter().map(|v| v.cvd).collect::<Vec<_>>(), vec![2, 3]);
}

#[test]
fn delta_of_five_seconds_ago_is_the_latest_old_sample() {
    let samples = vec![
        CvdSample { timestamp: 1_000, cvd: 10 },
        CvdSample { timestamp: 4_000, cvd: 20 },
        CvdSample { timestamp: 5_000, cvd: 30 },
        CvdSample { timestamp: 5_001, cvd: 40 },
        CvdSample { timestamp: 10_000, cvd: 50 },
    ];
    assert_eq!(cvd_5s_ago(&samples, 10_000, 50), 30);
    assert_eq!(cvd_5s_ago(&samples, 10_001, 50), 40);
    assert_eq!(cvd_5s_ago(&samples, 9_999, 77), 20);
    assert_eq!(cvd_5s_ago(&samples, 5_999, 77), 77);
    assert_eq!(cvd_5s_ago(&samples, 4_000, 77), 77);
    assert_eq!(cvd_5s_ago(&Vec::new(), 10_000, -3), -3);
}

#[test]
fn sign_of_the_delta() {
    assert_eq!(sign(5), 1);
    assert_eq!(sign(-5), -1);
    assert_eq!(sign(0), 0);
    assert_eq!(sign(i64::MIN), -1);
}

#[test]
fn flip_detector_needs_two_signs_and_the_cooldown() {
    let mut state = FlipState::new();
    assert_eq!(state.detect(10_000, 5, 0), None);
    assert_eq!(state.prev_sign, 1);
    assert_eq!(state.detect(11_000, 0, 0), None);
    assert_eq!(state.prev_sign, 0);
    assert_eq!(state.detect(12_000, -5, 0), None);
    let flip = state.detect(13_000, 8, -5).unwrap();
    assert_eq!(flip.direction, Direction::Bullish);
    assert_eq!(flip.flip_type, FlipType::ZeroCross);
    assert_eq!(flip.cvd_before, -5);
    assert_eq!(flip.cvd_after, 8);
    assert_eq!(flip.timestamp, 13_000);
    assert_eq!(state.last_flip_time, 13_000);
    assert_eq!(state.detect(14_999, -1, 8), None);
    assert_eq!(state.prev_sign, -1);
    assert_eq!(state.last_flip_time, 13_000);
    let again = state.detect(15_000, 1, -1).unwrap();
    assert_eq!(again.direction, Direction::Bullish);
    assert_eq!(state.detect(17_000, 2, 1), None);
}

#[test]
fn threshold_follows_the_recent_volume() {
    let now = 100_000;
    let busy = history(now, 15, 1000);
    assert!(min_delta_met(&busy, now, 200));
    assert!(!min_delta_met(&busy, now, 199));
    let quiet = history(now, 1, 100);
    assert!(min_delta_met(&quiet, now, 20));
    assert!(!min_delta_met(&quiet, now, 19));
    let none: Vec<VolumeSnapshot> = Vec::new();
    assert!(min_delta_met(&none, now, 80));
    assert!(!min_delta_met(&none, now, 79));
    let stale = vec![VolumeSnapshot { timestamp: now - 30_001, volume: 1_000_000, delta: 0 }];
    assert!(min_delta_met(&stale, now, 80));
    assert!(!min_delta_met(&stale, now, 79));
    let edge = vec![VolumeSnapshot { timestamp: now - 30_000, volume: 7_500, delta: 0 }];
    assert!(min_delta_met(&edge, now, 100));
    assert!(!min_delta_met(&edge, now, 99));
}

#[test]
fn absorption_allows_one_tick_of_movement() {
    assert_eq!(absorbed(5, TICK), Some(AbsorptionType::Buying));
    assert_eq!(absorbed(5, -10 * TICK), Some(AbsorptionType::Buying));
    assert_eq!(absorbed(5, TICK + 1), None);
    assert_eq!(absorbed(-5, -TICK), Some(AbsorptionType::Selling));
    assert_eq!(absorbed(-5, 10 * TICK), Some(AbsorptionType::Selling));
    assert_eq!(absorbed(-5, -TICK - 1), None);
    assert_eq!(absorbed(0, 0), None);
}

#[test]
fn trend_counts_beyond_a_hundred() {
    assert!(against_trend(AbsorptionType::Buying, 301, 200));
    assert!(!against_trend(AbsorptionType::Buying, 300, 200));
    assert!(against_trend(AbsorptionType::Selling, 99, 200));
    assert!(!against_trend(AbsorptionType::Selling, 100, 200));
    assert!(!against_trend(AbsorptionType::Selling, 301, 200));
    assert!(against_trend(AbsorptionType::Buying, i64::MAX, i64::MIN));
}

#[test]
fn strength_counts_events_and_context() {
    assert_eq!(calculate_strength(1, false, false), Strength::Weak);
    assert_eq!(calculate_strength(2, false, false), Strength::Medium);
    assert_eq!(calculate_strength(3, false, false), Strength::Strong);
    assert_eq!(calculate_strength(4, false, false), Strength::Defended);
    assert_eq!(calculate_strength(1000, false, false), Strength::Defended);
    assert_eq!(calculate_strength(1, true, false), Strength::Medium);
    assert_eq!(calculate_strength(1, false, true), Strength::Medium);
    assert_eq!(calculate_strength(1, true, true), Strength::Strong);
    assert_eq!(calculate_strength(2, true, true), Strength::Defended);
    assert_eq!(calculate_strength(4, true, true), Strength::Defended);
    assert_eq!(Strength::Defended.as_str(), "defended");
    assert_eq!(orderflow_bubbles::types::strength_num_to_str(0), "weak");
    assert_eq!(orderflow_bubbles::types::strength_num_to_str(1), "medium");
    assert_eq!(orderflow_bubbles::types::strength_num_to_str(2), "strong");
    assert_eq!(orderflow_bubbles::types::strength_num_to_str(3), "defended");
    assert_eq!(orderflow_bubbles::types::strength_num_to_str(200), "defended");
}

#[test]
fn absorption_at_a_key_level_is_announced_at_once() {
    let now = 100_000;
    let mut zones: Vec<Zone> = Vec::new();
    let event = detect_absorption(
        &mut zones,
        &history(now, 15, 1000),
        &at_poc(),
        400,
        0,
        P100 + 50_000_000,
        now,
        400,
        400,
    )
    .unwrap();
    assert_eq!(event.timestamp, now);
    assert_eq!(event.price, P100);
    assert_eq!(event.absorption_type, AbsorptionType::Buying);
    assert_eq!(event.delta, 400);
    assert_eq!(event.strength, Strength::Medium);
    assert_eq!(event.event_count, 1);
    assert_eq!(event.total_absorbed, 400);
    assert!(event.at_key_level);
    assert!(!event.against_trend);
    assert_eq!(
        zones,
        vec![Zone {
            price: P100,
            absorption_type: AbsorptionType::Buying,
            total_absorbed: 400,
            event_count: 1,
            first_seen: now,
            last_seen: now,
            peak_strength: Strength::Medium,
        }]
    );
}

#[test]
fn zone_grows_to_defended_and_keeps_its_peak() {
    let mut zones: Vec<Zone> = Vec::new();
    let mut seen = Vec::new();
    for k in 0..4u64 {
        let now = 100_000 + 1000 * k;
        let event = detect_absorption(&mut zones, &Vec::new(), &None, 400, 0, P100, now, 0, 0);
        seen.push(event.map(|e| e.strength));
    }
    assert_eq!(
        seen,
        vec![None, Some(Strength::Medium), Some(Strength::Strong), Some(Strength::Defended)]
    );
    assert_eq!(zones.len(), 1);
    assert_eq!(zones[0].event_count, 4);
    assert_eq!(zones[0].total_absorbed, 1600);
    assert_eq!(zones[0].first_seen, 100_000);
    assert_eq!(zones[0].last_seen, 103_000);
    assert_eq!(zones[0].peak_strength, Strength::Defended);

    // A selling absorption against the trend at another bucket opens a second zone.
    let event =
        detect_absorption(&mut zones, &Vec::new(), &None, -90, 0, P100 + TICK, 104_000, -200, 0)
            .unwrap();
    assert_eq!(event.absorption_type, AbsorptionType::Selling);
    assert!(event.against_trend);
    assert_eq!(event.strength, Strength::Medium);
    assert_eq!(zones.len(), 2);
    assert_eq!(find_zone(&zones, P100 + TICK), 1);
    assert_eq!(find_zone(&zones, P100), 0);
    assert_eq!(find_zone(&zones, P100 + 2 * TICK), 2);

    // Too small a delta books nothing.
    assert_eq!(detect_absorption(&mut zones, &Vec::new(), &None, 79, 0, P100, 105_000, 0, 0), None);
    assert_eq!(zones[0].event_count, 4);
    // A delta that moved the price books nothing.
    assert_eq!(
        detect_absorption(&mut zones, &Vec::new(), &None, 400, TICK + 1, P100, 105_000, 0, 0),
        None
    );
    assert_eq!(zones[0].event_count, 4);
}

#[test]
fn peak_strength_survives_weaker_events() {
    let mut zones: Vec<Zone> = Vec::new();
    let first = absorb(&mut zones, P100, 1_000, AbsorptionType::Buying, 50, true, true);
    assert_eq!(first.peak_strength, Strength::Strong);
    let second = absorb(&mut zones, P100, 2_000, AbsorptionType::Selling, 30, false, false);
    assert_eq!(second.peak_strength, Strength::Strong);
    assert_eq!(second.event_count, 2);
    assert_eq!(second.total_absorbed, 80);
    assert_eq!(second.absorption_type, AbsorptionType::Selling);
    assert_eq!(second.first_seen, 1_000);
    assert_eq!(second.last_seen, 2_000);
    assert_eq!(zones, vec![second]);
    let event = absorption_event(&second, -30, 0, false, false).unwrap();
    assert_eq!(event.strength, Strength::Medium);
    assert_eq!(absorption_event(&first, 50, 0, false, false), None);
    let reports = zone_reports(&zones, &at_poc(), 500, 0);
    assert_eq!(reports.len(), 1);
    assert_eq!(reports[0].strength, Strength::Strong);
    assert_eq!(reports[0].event_count, 2);
    assert_eq!((reports[0].at_poc, reports[0].at_vah, reports[0].at_val), (true, false, false));
    assert!(!reports[0].against_trend);
    assert!(zone_reports(&zones, &None, -500, 0)[0].against_trend);
    assert!(zone_reports(&vec![first], &None, 0, 0).is_empty());
}

#[test]
fn zones_stay_by_their_peak_strength() {
    let zone = |peak: Strength| Zone {
        price: P100,
        absorption_type: AbsorptionType::Buying,
        total_absorbed: 100,
        event_count: 1,
        first_seen: 0,
        last_seen: 1_000,
        peak_strength: peak,
    };
    assert_eq!(retention(Strength::Weak), 300_000);
    assert_eq!(retention(Strength::Medium), 300_000);
    assert_eq!(retention(Strength::Strong), 900_000);
    assert_eq!(retention(Strength::Defended), 1_800_000);
    assert!(zone(Strength::Weak).keep(301_000));
    assert!(!zone(Strength::Weak).keep(301_001));
    assert!(!zone(Strength::Medium).keep(301_001));
    assert!(zone(Strength::Strong).keep(901_000));
    assert!(!zone(Strength::Strong).keep(901_001));
    assert!(zone(Strength::Defended).keep(1_801_000));
    assert!(!zone(Strength::Defended).keep(1_801_001));
    let mut zones = vec![
        zone(Strength::Weak),
        Zone { price: P100 + TICK, ..zone(Strength::Defended) },
        Zone { price: P100 + 2 * TICK, ..zone(Strength::Strong) },
    ];
    expire(&mut zones, 301_001);
    assert_eq!(zones.iter().map(|z| z.peak_strength).collect::<Vec<_>>(), vec![
        Strength::Defended,
        Strength::Strong
    ]);
    expire(&mut zones, 1_801_001);
    assert!(zones.is_empty());
}

fn stacked_profile(points: &[(i64, u32, u32)]) -> VolumeProfile {
    let mut profile = VolumeProfile::new();
    for (point, buy, sell) in points {
        if *buy > 0 {
            profile.update(point * PRICE_SCALE, *buy, Side::Buy);
        }
        if *sell > 0 {
            profile.update(point * PRICE_SCALE + 3 * TICK, *sell, Side::Sell);
        }
    }
    profile
}

#[test]
fn buckets_gather_the_ticks_of_a_point() {
    let profile = stacked_profile(&[(100, 80, 20), (101, 5, 0), (103, 0, 9)]);
    assert_eq!(
        point_buckets(&profile),
        vec![
            PointBucket { point: 100, buy_volume: 80, sell_volume: 20 },
            PointBucket { point: 101, buy_volume: 5, sell_volume: 0 },
            PointBucket { point: 103, buy_volume: 0, sell_volume: 9 },
        ]
    );
    assert!(point_buckets(&VolumeProfile::new()).is_empty());
}

#[test]
fn bucket_dominance_thresholds() {
    let b = |buy: u64, sell: u64| PointBucket { point: 1, buy_volume: buy, sell_volume: sell };
    assert_eq!(bucket_side(&b(70, 30)), Some(Side::Buy));
    assert_eq!(bucket_side(&b(69, 31)), None);
    assert_eq!(bucket_side(&b(30, 70)), Some(Side::Sell));
    assert_eq!(bucket_side(&b(31, 69)), None);
    assert_eq!(bucket_side(&b(99, 0)), None);
    assert_eq!(bucket_side(&b(100, 0)), Some(Side::Buy));
    assert_eq!(bucket_side(&b(0, 100)), Some(Side::Sell));
    assert_eq!(bucket_side(&b(u64::MAX, u64::MAX)), None);
}

#[test]
fn stacked_imbalance_over_five_levels() {
    let profile =
        stacked_profile(&[(100, 80, 20), (101, 80, 20), (102, 80, 20), (103, 80, 20), (104, 80, 20)]);
    let mut state = StackState::new();
    let stacked = detect_stacked_imbalances(&mut state, &profile, 30_000).unwrap();
    assert_eq!(
        stacked,
        StackedImbalance {
            timestamp: 30_000,
            side: Side::Buy,
            level_count: 5,
            price_high: 105 * PRICE_SCALE,
            price_low: 100 * PRICE_SCALE,
            total_imbalance: 300,
        }
    );
    assert_eq!(mid_price(&stacked), 102 * PRICE_SCALE + PRICE_SCALE / 2);
    assert_eq!(state.last_time, 30_000);
    assert_eq!(state.last_side, Some(Side::Buy));
    // Within the cooldown nothing is announced, not even for the other side.
    let sells = stacked_profile(&[(200, 0, 100), (201, 0, 100), (202, 0, 100), (203, 0, 100)]);
    assert_eq!(detect_stacked_imbalances(&mut state, &sells, 59_999), None);
    // After it, the same side stays silent.
    assert_eq!(detect_stacked_imbalances(&mut state, &profile, 60_000), None);
    assert_eq!(detect_stacked_imbalances(&mut state, &profile, 600_000), None);
    assert_eq!(state.last_time, 30_000);
    // The other side is announced.
    let other = detect_stacked_imbalances(&mut state, &sells, 60_000).unwrap();
    assert_eq!(other.side, Side::Sell);
    assert_eq!(other.level_count, 4);
    assert_eq!(other.price_low, 200 * PRICE_SCALE);
    assert_eq!(other.price_high, 204 * PRICE_SCALE);
    assert_eq!(other.total_imbalance, 400);
    assert_eq!(state.last_time, 60_000);
}

#[test]
fn stack_needs_four_adjacent_levels_of_one_side() {
    let mut state = StackState::new();
    let three = stacked_profile(&[(100, 80, 20), (101, 80, 20), (102, 80, 20)]);
    assert_eq!(detect_stacked_imbalances(&mut state, &three, 30_000), None);
    let gap = stacked_profile(&[(100, 80, 20), (101, 80, 20), (103, 80, 20), (104, 80, 20)]);
    assert_eq!(detect_stacked_imbalances(&mut state, &gap, 30_000), None);
    let thin = stacked_profile(&[(100, 80, 20), (101, 80, 20), (102, 80, 19), (103, 80, 20), (104, 80, 20)]);
    assert_eq!(detect_stacked_imbalances(&mut state, &thin, 30_000), None);
    let mixed = stacked_profile(&[(100, 80, 20), (101, 80, 20), (102, 20, 80), (103, 80, 20), (104, 80, 20)]);
    assert_eq!(detect_stacked_imbalances(&mut state, &mixed, 30_000), None);
    let balanced = stacked_profile(&[(100, 80, 20), (101, 80, 20), (102, 50, 50), (103, 80, 20), (104, 80, 20)]);
    assert_eq!(detect_stacked_imbalances(&mut state, &balanced, 30_000), None);
    assert_eq!(detect_stacked_imbalances(&mut state, &VolumeProfile::new(), 30_000), None);
    assert_eq!(state, StackState { last_time: 0, last_side: None });
    let early = stacked_profile(&[(100, 80, 20), (101, 80, 20), (102, 80, 20), (103, 80, 20)]);
    assert_eq!(detect_stacked_imbalances(&mut state, &early, 29_999), None);
    assert!(detect_stacked_imbalances(&mut state, &early, 30_000).is_some());
}

#[test]
fn best_stack_is_the_longest_and_the_lowest_of_the_longest() {
    let b = |point: i64, buy: u64, sell: u64| PointBucket { point, buy_volume: buy, sell_volume: sell };
    let buckets = vec![
        b(10, 100, 0),
        b(11, 100, 0),
        b(12, 0, 100),
        b(13, 0, 150),
        b(20, 0, 100),
        b(21, 0, 100),
        b(22, 90, 10),
    ];
    assert_eq!(
        best_stack(&buckets),
        Some(Stack { side: Side::Buy, level_count: 2, low_point: 10, high_point: 11, total_imbalance: 200 })
    );
    let longer = vec![b(10, 100, 0), b(11, 0, 100), b(12, 0, 100), b(13, 10, 190), b(14, 50, 50)];
    assert_eq!(
        best_stack(&longer),
        Some(Stack { side: Side::Sell, level_count: 3, low_point: 11, high_point: 13, total_imbalance: 380 })
    );
    assert_eq!(best_stack(&vec![b(1, 50, 50), b(2, 10, 10)]), None);
    assert_eq!(best_stack(&Vec::new()), None);
}
