use orderflow_bubbles::price::{
    bucket_price, point_floor, quarter_key, HALF_POINT, MAX_PRICE, PRICE_SCALE, TICK,
};
use orderflow_bubbles::profile::{at_levels, is_near, KeyLevels, VolumeProfile};
use orderflow_bubbles::types::{Side, VolumeProfileLevel};

const P100: i64 = 100 * PRICE_SCALE;

fn profile_of(entries: &[(i64, u32, Side)]) -> VolumeProfile {
    let mut profile = VolumeProfile::new();
    for (price, size, side) in entries {
        profile.update(*price, *size, *side);
    }
    profile
}

#[test]
fn prices_round_to_the_nearest_tick_halves_up() {
    assert_eq!(quarter_key(P100), 400);
    assert_eq!(bucket_price(P100), P100);
    assert_eq!(quarter_key(P100 + 100_000_000), 400);
    assert_eq!(bucket_price(P100 + 100_000_000), P100);
    assert_eq!(quarter_key(P100 + 124_999_999), 400);
    assert_eq!(quarter_key(P100 + 125_000_000), 401);
    assert_eq!(bucket_price(P100 + 125_000_000), P100 + TICK);
    assert_eq!(bucket_price(P100 + 374_999_999), P100 + TICK);
    assert_eq!(quarter_key(0), 0);
    assert_eq!(bucket_price(MAX_PRICE), MAX_PRICE);
    assert_eq!(quarter_key(MAX_PRICE), 4_000_000_000);
}

#[test]
fn points_round_down() {
    assert_eq!(point_floor(P100), 100);
    assert_eq!(point_floor(P100 + 999_999_999), 100);
    assert_eq!(point_floor(P100 - 1), 99);
    assert_eq!(point_floor(0), 0);
    assert_eq!(point_floor(MAX_PRICE), 1_000_000_000);
}

#[test]
fn update_grows_one_bucket_and_keeps_levels_ascending() {
    let profile = profile_of(&[
        (P100 + TICK, 3, Side::Buy),
        (P100, 4, Side::Sell),
        (P100 + 3 * TICK, 1, Side::Buy),
        (P100 + TICK + 10, 2, Side::Sell),
        (P100 + TICK - 10, 5, Side::Buy),
    ]);
    assert_eq!(
        profile.levels(),
        vec![
            VolumeProfileLevel { price: P100, buy_volume: 0, sell_volume: 4, total_volume: 4 },
            VolumeProfileLevel {
                price: P100 + TICK,
                buy_volume: 8,
                sell_volume: 2,
                total_volume: 10
            },
            VolumeProfileLevel {
                price: P100 + 3 * TICK,
                buy_volume: 1,
                sell_volume: 0,
                total_volume: 1
            },
        ]
    );
    assert_eq!(profile.buy_volume(), 9);
    assert_eq!(profile.sell_volume(), 6);
    assert_eq!(profile.len(), 3);
    assert_eq!(profile.level(1).total_volume, 10);
}

#[test]
fn empty_profile_has_no_levels_of_note() {
    let profile = VolumeProfile::new();
    assert_eq!(profile.get_poc(), None);
    assert_eq!(profile.get_value_area(), None);
    assert_eq!(profile.landmarks(), None);
    assert_eq!(profile.is_at_key_level(P100), (false, false, false));
    assert_eq!(profile.is_at_key_level(0), (false, false, false));
    assert!(profile.levels().is_empty());
}

#[test]
fn poc_is_the_largest_bucket_lowest_on_a_tie() {
    let profile = profile_of(&[
        (P100, 10, Side::Buy),
        (P100 + TICK, 50, Side::Sell),
        (P100 + 2 * TICK, 50, Side::Buy),
        (P100 + 3 * TICK, 49, Side::Buy),
    ]);
    assert_eq!(profile.get_poc(), Some(P100 + TICK));
}

#[test]
fn value_area_grows_towards_the_larger_neighbour() {
    let profile = profile_of(&[
        (P100 - TICK, 10, Side::Buy),
        (P100, 50, Side::Buy),
        (P100 + TICK, 20, Side::Sell),
        (P100 + 2 * TICK, 20, Side::Sell),
    ]);
    assert_eq!(profile.get_poc(), Some(P100));
    assert_eq!(profile.get_value_area(), Some((P100 + TICK, P100)));
    assert_eq!(
        profile.landmarks(),
        Some(KeyLevels { poc: P100, vah: P100 + TICK, val: P100 })
    );
}

#[test]
fn value_area_prefers_the_upper_side_on_a_tie() {
    let profile = profile_of(&[
        (P100 - TICK, 20, Side::Buy),
        (P100, 40, Side::Buy),
        (P100 + TICK, 20, Side::Sell),
        (P100 + 2 * TICK, 20, Side::Sell),
    ]);
    // 40 of 100, then the upper 20 on the tie, then the lower 20 against the upper 20:
    // again the upper side.
    assert_eq!(profile.get_value_area(), Some((P100 + 2 * TICK, P100)));
}

#[test]
fn value_area_takes_the_lower_side_when_it_is_larger() {
    let profile = profile_of(&[
        (P100 - 2 * TICK, 5, Side::Buy),
        (P100 - TICK, 30, Side::Buy),
        (P100, 40, Side::Buy),
        (P100 + TICK, 25, Side::Sell),
    ]);
    assert_eq!(profile.get_value_area(), Some((P100, P100 - TICK)));
}

#[test]
fn value_area_reaches_across_a_gap() {
    let profile = profile_of(&[(P100, 50, Side::Buy), (P100 + 4 * TICK, 50, Side::Sell)]);
    assert_eq!(profile.get_poc(), Some(P100));
    assert_eq!(profile.get_value_area(), Some((P100 + 4 * TICK, P100)));
    let far = profile_of(&[(P100, 50, Side::Buy), (P100 + 20 * TICK, 50, Side::Sell)]);
    assert_eq!(far.get_value_area(), Some((P100 + 20 * TICK, P100)));
}

#[test]
fn value_area_reaches_down_where_nothing_lies_above() {
    let profile = profile_of(&[(P100 - 8 * TICK, 50, Side::Sell), (P100, 51, Side::Buy)]);
    assert_eq!(profile.get_poc(), Some(P100));
    assert_eq!(profile.get_value_area(), Some((P100, P100 - 8 * TICK)));
}

#[test]
fn value_area_between_two_gaps_reaches_up_first() {
    // 40 of 100 at the point of control; both neighbouring buckets are empty.
    let profile = profile_of(&[
        (P100 - 3 * TICK, 30, Side::Sell),
        (P100, 40, Side::Buy),
        (P100 + 5 * TICK, 30, Side::Sell),
    ]);
    assert_eq!(profile.get_value_area(), Some((P100 + 5 * TICK, P100)));
    // 62 of 143: the level above brings 82, short of 70 %; the level below the rest.
    let wider = profile_of(&[
        (P100 - 3 * TICK, 61, Side::Sell),
        (P100, 62, Side::Buy),
        (P100 + 5 * TICK, 20, Side::Sell),
    ]);
    assert_eq!(wider.get_poc(), Some(P100));
    assert_eq!(wider.get_value_area(), Some((P100 + 5 * TICK, P100 - 3 * TICK)));
}

#[test]
fn value_area_prefers_a_neighbour_with_volume_to_a_gap() {
    // Above the point of control lies a gap, below it a bucket with volume.
    let profile = profile_of(&[
        (P100 - TICK, 20, Side::Sell),
        (P100, 50, Side::Buy),
        (P100 + 2 * TICK, 30, Side::Sell),
    ]);
    assert_eq!(profile.get_value_area(), Some((P100, P100 - TICK)));
}

#[test]
fn value_area_holds_seventy_percent_or_every_level() {
    let spreads: [&[(i64, u32, Side)]; 4] = [
        &[(P100, 1, Side::Buy), (P100 + 40 * TICK, 1, Side::Sell)],
        &[(P100, 10, Side::Buy), (P100 + 2 * TICK, 10, Side::Sell), (P100 + 9 * TICK, 10, Side::Buy)],
        &[(P100, 5, Side::Buy), (P100 + TICK, 9, Side::Sell), (P100 + 7 * TICK, 8, Side::Buy),
          (P100 + 8 * TICK, 2, Side::Buy)],
        &[(P100, 3, Side::Buy), (P100 + 3 * TICK, 3, Side::Sell), (P100 + 6 * TICK, 3, Side::Buy),
          (P100 + 9 * TICK, 4, Side::Buy)],
    ];
    for trades in spreads {
        let profile = profile_of(trades);
        let levels = profile.levels();
        let (vah, val) = profile.get_value_area().unwrap();
        let poc = profile.get_poc().unwrap();
        assert!(val <= poc && poc <= vah);
        let total: u64 = levels.iter().map(|l| l.total_volume).sum();
        let inside: u64 =
            levels.iter().filter(|l| val <= l.price && l.price <= vah).map(|l| l.total_volume).sum();
        let every = levels.iter().all(|l| val <= l.price && l.price <= vah);
        assert!(inside * 10 >= total * 7 || every);
    }
}

#[test]
fn value_area_of_one_bucket_is_that_bucket() {
    let profile = profile_of(&[(P100, 1, Side::Sell)]);
    assert_eq!(profile.get_value_area(), Some((P100, P100)));
}

#[test]
fn value_area_threshold_is_exactly_seventy_percent() {
    let met = profile_of(&[(P100, 7, Side::Buy), (P100 + TICK, 3, Side::Buy)]);
    assert_eq!(met.get_value_area(), Some((P100, P100)));
    let missed = profile_of(&[(P100, 69, Side::Buy), (P100 + TICK, 31, Side::Buy)]);
    assert_eq!(missed.get_value_area(), Some((P100 + TICK, P100)));
}

#[test]
fn key_levels_reach_half_a_point() {
    let profile = profile_of(&[
        (P100, 50, Side::Buy),
        (P100 + TICK, 30, Side::Sell),
        (P100 + 2 * TICK, 20, Side::Sell),
    ]);
    assert_eq!(profile.get_value_area(), Some((P100 + TICK, P100)));
    assert_eq!(profile.is_at_key_level(P100 + HALF_POINT), (true, true, true));
    assert_eq!(profile.is_at_key_level(P100 + HALF_POINT + 1), (false, true, false));
    assert_eq!(profile.is_at_key_level(P100 + TICK + HALF_POINT + 1), (false, false, false));
    assert_eq!(profile.is_at_key_level(P100 - HALF_POINT), (true, false, true));
    assert_eq!(profile.is_at_key_level(P100 - HALF_POINT - 1), (false, false, false));
    assert_eq!(profile.is_at_key_level(P100 - TICK - 1), (true, false, true));
}

#[test]
fn nearness_is_symmetric_and_total() {
    assert!(is_near(P100, P100));
    assert!(is_near(P100 - HALF_POINT, P100));
    assert!(!is_near(P100 - HALF_POINT - 1, P100));
    assert!(!is_near(i64::MIN, i64::MAX));
    assert!(!is_near(i64::MAX, i64::MIN));
    assert_eq!(at_levels(&None, P100), (false, false, false));
    assert_eq!(
        at_levels(&Some(KeyLevels { poc: P100, vah: P100 + 2 * PRICE_SCALE, val: 0 }), P100),
        (true, false, false)
    );
}
