//! Low volume nodes: the half-point buckets of an impulse leg's volume
//! profile that hold less than three tenths of the leg's mean volume per
//! bucket.

use vstd::prelude::*;
use crate::bars::trades_volume;
use crate::impulse::ImpulseLeg;
use crate::levels::{add_volume, buckets_ok, buckets_volume, with_volume, PriceBucket, MAX_LEVEL_PRICE};
use crate::trades::Trade;

verus! {

/// Price units in half a point, the width of a bucket.
pub const LVN_BUCKET: i64 = 500_000_000;

/// Half the width of a bucket.
pub const HALF_LVN_BUCKET: i64 = 250_000_000;

/// A low volume node of an impulse leg. Beside its own volume it carries the
/// volume of the leg and the number of the leg's buckets: the mean volume
/// per bucket is the one divided by the other.
#[derive(Clone, Debug, PartialEq, Eq)]
pub struct LvnLevel {
    pub price: i64,
    pub volume: u64,
    pub leg_volume: u64,
    pub leg_buckets: u64,
    pub impulse_start_time: i64,
    pub impulse_end_time: i64,
    pub date: i64,
    pub symbol: String,
}

/// The half-point bucket nearest to a price, halves away from zero.
pub open spec fn spec_half_bucket(price: i64) -> i64 {
    (if price >= 0 {
        (price + HALF_LVN_BUCKET) / (LVN_BUCKET as int)
    } else {
        -((-price + HALF_LVN_BUCKET) / (LVN_BUCKET as int))
    }) as i64
}

/// The half-point bucket nearest to a price.
pub fn price_to_bucket(price: i64) -> (bucket: i64)
    ensures
        bucket == spec_half_bucket(price),
        -MAX_LEVEL_PRICE <= price <= MAX_LEVEL_PRICE ==> -8_000_000_001 <= bucket <= 8_000_000_001,
{
    let p: i128 = price as i128;
    if p >= 0 {
        ((p + HALF_LVN_BUCKET as i128) / LVN_BUCKET as i128) as i64
    } else {
        (-((-p + HALF_LVN_BUCKET as i128) / LVN_BUCKET as i128)) as i64
    }
}

/// The price of a half-point bucket.
pub fn bucket_to_price(bucket: i64) -> (price: i64)
    requires
        -9_000_000_000 <= bucket <= 9_000_000_000,
    ensures
        price == bucket * LVN_BUCKET,
{
    bucket * LVN_BUCKET
}

/// Does the trade fall into the leg's time, both ends included?
pub open spec fn in_leg(trade: Trade, leg: ImpulseLeg) -> bool {
    leg.start_time <= trade.ts_event <= leg.end_time
}

/// The volume profile of the trades of a leg, ascending by bucket.
pub open spec fn leg_profile(trades: Seq<Trade>, leg: ImpulseLeg) -> Seq<PriceBucket>
    decreases trades.len(),
{
    if trades.len() == 0 {
        Seq::empty()
    } else {
        let rest = leg_profile(trades.drop_last(), leg);
        if in_leg(trades.last(), leg) {
            with_volume(rest, spec_half_bucket(trades.last().price), trades.last().size)
        } else {
            rest
        }
    }
}

/// Is the bucket at index `k` thin? It holds less than three tenths of the
/// mean volume per bucket.
pub open spec fn thin(profile: Seq<PriceBucket>, k: int) -> bool {
    profile[k].volume * profile.len() * 10 < 3 * buckets_volume(profile)
}

/// The node at the bucket at index `k` of a leg's profile.
pub open spec fn node_at(profile: Seq<PriceBucket>, k: int, leg: ImpulseLeg) -> LvnLevel {
    LvnLevel {
        price: (profile[k].bucket * LVN_BUCKET) as i64,
        volume: profile[k].volume,
        leg_volume: buckets_volume(profile) as u64,
        leg_buckets: profile.len() as u64,
        impulse_start_time: leg.start_time,
        impulse_end_time: leg.end_time,
        date: leg.date,
        symbol: leg.symbol,
    }
}

/// Number of nodes at `price` or below.
pub open spec fn upper_rank(levels: Seq<LvnLevel>, price: i64) -> int
    decreases levels.len(),
{
    if levels.len() == 0 {
        0
    } else {
        upper_rank(levels.drop_last(), price) + if levels.last().price <= price {
            1int
        } else {
            0int
        }
    }
}

/// The nodes with one more, behind those at its price or below.
pub open spec fn with_node(levels: Seq<LvnLevel>, node: LvnLevel) -> Seq<LvnLevel> {
    levels.insert(upper_rank(levels, node.price), node)
}

/// The nodes with the thin buckets among the first `upto` of a leg's
/// profile added, lowest first.
pub open spec fn with_leg_nodes(levels: Seq<LvnLevel>, profile: Seq<PriceBucket>, leg: ImpulseLeg, upto: int) -> Seq<
    LvnLevel,
>
    decreases upto,
{
    if upto <= 0 || upto > profile.len() {
        levels
    } else {
        let rest = with_leg_nodes(levels, profile, leg, upto - 1);
        if thin(profile, upto - 1) {
            with_node(rest, node_at(profile, upto - 1, leg))
        } else {
            rest
        }
    }
}

/// The low volume nodes of the legs, ascending by price; nodes at one price
/// stand in the order of their legs.
pub open spec fn lvns_of(trades: Seq<Trade>, legs: Seq<ImpulseLeg>) -> Seq<LvnLevel>
    decreases legs.len(),
{
    if legs.len() == 0 {
        Seq::empty()
    } else {
        let profile = leg_profile(trades, legs.last());
        with_leg_nodes(lvns_of(trades, legs.drop_last()), profile, legs.last(), profile.len() as int)
    }
}

/// Can low volume nodes be taken from the trades? Their prices must be
/// within `MAX_LEVEL_PRICE` of zero, and their volume must fit 64 bits.
pub open spec fn lvns_fit(trades: Seq<Trade>) -> bool {
    &&& forall|i: int|
        0 <= i < trades.len() ==> -MAX_LEVEL_PRICE <= (#[trigger] trades[i]).price
            <= MAX_LEVEL_PRICE
    &&& trades_volume(trades) <= u64::MAX
}

/// Nodes in order: no node above one that follows it.
pub open spec fn in_order(levels: Seq<LvnLevel>) -> bool {
    forall|i: int, j: int|
        0 <= i < j < levels.len() ==> (#[trigger] levels[i]).price <= (#[trigger] levels[j]).price
}

proof fn lemma_upper_rank(levels: Seq<LvnLevel>, price: i64, i: int)
    requires
        0 <= i <= levels.len(),
        forall|j: int| 0 <= j < i ==> (#[trigger] levels[j]).price <= price,
        forall|j: int| i <= j < levels.len() ==> (#[trigger] levels[j]).price > price,
    ensures
        upper_rank(levels, price) == i,
    decreases levels.len(),
{
    if levels.len() > 0 {
        let rest = levels.drop_last();
        if i == levels.len() {
            assert(levels[levels.len() - 1].price <= price);
            assert forall|j: int| 0 <= j < i - 1 implies (#[trigger] rest[j]).price <= price by {
                assert(rest[j] == levels[j]);
            }
            lemma_upper_rank(rest, price, i - 1);
        } else {
            assert(levels[levels.len() - 1].price > price);
            assert forall|j: int| 0 <= j < i implies (#[trigger] rest[j]).price <= price by {
                assert(rest[j] == levels[j]);
            }
            assert forall|j: int| i <= j < rest.len() implies (#[trigger] rest[j]).price
                > price by {
                assert(rest[j] == levels[j]);
            }
            lemma_upper_rank(rest, price, i);
        }
    }
}

proof fn lemma_leg_within_trades(trades: Seq<Trade>, leg: ImpulseLeg)
    requires
        lvns_fit(trades),
    ensures
        buckets_ok(leg_profile(trades, leg), buckets_volume(leg_profile(trades, leg)) as int),
        buckets_volume(leg_profile(trades, leg)) <= trades_volume(trades),
    decreases trades.len(),
{
    if trades.len() > 0 {
        let rest = trades.drop_last();
        assert(lvns_fit(rest)) by {
            assert forall|i: int| 0 <= i < rest.len() implies -MAX_LEVEL_PRICE <= (
            #[trigger] rest[i]).price <= MAX_LEVEL_PRICE by {
                assert(rest[i] == trades[i]);
            }
        }
        lemma_leg_within_trades(rest, leg);
        if in_leg(trades.last(), leg) {
            assert(-MAX_LEVEL_PRICE <= trades[trades.len() - 1].price <= MAX_LEVEL_PRICE);
            crate::levels::lemma_with_volume_ok(
                leg_profile(rest, leg),
                spec_half_bucket(trades.last().price),
                trades.last().size,
            );
        }
    }
}

/// The volume profile of the trades of a leg.
pub fn profile_of_leg(trades: &Vec<Trade>, leg: &ImpulseLeg) -> (profile: Vec<PriceBucket>)
    requires
        lvns_fit(trades@),
    ensures
        profile@ == leg_profile(trades@, *leg),
        buckets_ok(profile@, buckets_volume(profile@) as int),
        buckets_volume(profile@) <= u64::MAX,
{
    let mut profile: Vec<PriceBucket> = Vec::new();
    let mut i: usize = 0;
    proof {
        assert(trades@.take(0) =~= Seq::<Trade>::empty());
    }
    while i < trades.len()
        invariant
            0 <= i <= trades.len(),
            lvns_fit(trades@),
            profile@ == leg_profile(trades@.take(i as int), *leg),
            buckets_ok(profile@, buckets_volume(profile@) as int),
            buckets_volume(profile@) <= trades_volume(trades@.take(i as int)),
        decreases trades.len() - i,
    {
        let trade = &trades[i];
        proof {
            let next = trades@.take(i + 1);
            assert(next.drop_last() =~= trades@.take(i as int));
            assert(lvns_fit(next)) by {
                assert forall|k: int| 0 <= k < next.len() implies -MAX_LEVEL_PRICE <= (
                #[trigger] next[k]).price <= MAX_LEVEL_PRICE by {
                    assert(next[k] == trades@[k]);
                }
                lemma_trades_prefix(trades@, i + 1);
            }
            lemma_leg_within_trades(next, *leg);
            assert(-MAX_LEVEL_PRICE <= trades@[i as int].price <= MAX_LEVEL_PRICE);
        }
        if leg.start_time <= trade.ts_event && trade.ts_event <= leg.end_time {
            add_volume(&mut profile, price_to_bucket(trade.price), trade.size);
        }
        i += 1;
    }
    proof {
        assert(trades@.take(i as int) =~= trades@);
        lemma_leg_within_trades(trades@, *leg);
    }
    profile
}

proof fn lemma_trades_prefix(trades: Seq<Trade>, i: int)
    requires
        0 <= i <= trades.len(),
    ensures
        trades_volume(trades.take(i)) <= trades_volume(trades),
    decreases trades.len() - i,
{
    if i == trades.len() {
        assert(trades.take(i) =~= trades);
    } else {
        lemma_trades_prefix(trades, i + 1);
        assert(trades.take(i + 1).drop_last() =~= trades.take(i));
    }
}

/// Adds a node behind those at its price or below.
pub fn insert_node(levels: &mut Vec<LvnLevel>, node: LvnLevel)
    requires
        in_order(old(levels)@),
    ensures
        final(levels)@ == with_node(old(levels)@, node),
        in_order(final(levels)@),
{
    let ghost before = levels@;
    let mut i: usize = levels.len();
    while i > 0 && levels[i - 1].price > node.price
        invariant
            0 <= i <= levels.len(),
            levels@ == before,
            forall|j: int| i <= j < before.len() ==> (#[trigger] before[j]).price > node.price,
        decreases i,
    {
        i -= 1;
    }
    proof {
        assert forall|j: int| 0 <= j < i implies (#[trigger] before[j]).price <= node.price by {
            if j < i - 1 {
                assert(before[j].price <= before[i - 1].price);
            }
        }
        lemma_upper_rank(before, node.price, i as int);
    }
    let ghost price = node.price;
    levels.insert(i, node);
    proof {
        let after = levels@;
        assert forall|k: int, l: int| 0 <= k < l < after.len() implies (#[trigger] after[k]).price
            <= (#[trigger] after[l]).price by {
            if l < i {
                assert(before[k].price <= before[l].price);
            } else if l == i {
                assert(before[k].price <= price);
            } else if k < i {
                assert(before[k].price <= price);
                assert(before[l - 1].price > price);
            } else if k == i {
                assert(before[l - 1].price > price);
            } else {
                assert(before[k - 1].price <= before[l - 1].price);
            }
        }
    }
}

/// Takes the low volume nodes from the trades of the impulse legs.
pub fn extract_lvns(trades: &Vec<Trade>, impulse_legs: &Vec<ImpulseLeg>) -> (levels: Vec<LvnLevel>)
    requires
        lvns_fit(trades@),
    ensures
        levels@ == lvns_of(trades@, impulse_legs@),
        in_order(levels@),
{
    let mut levels: Vec<LvnLevel> = Vec::new();
    let mut n: usize = 0;
    proof {
        assert(impulse_legs@.take(0) =~= Seq::<ImpulseLeg>::empty());
    }
    while n < impulse_legs.len()
        invariant
            0 <= n <= impulse_legs.len(),
            lvns_fit(trades@),
            levels@ == lvns_of(trades@, impulse_legs@.take(n as int)),
            in_order(levels@),
        decreases impulse_legs.len() - n,
    {
        let leg = &impulse_legs[n];
        let profile = profile_of_leg(trades, leg);
        let ghost before = levels@;
        proof {
            assert(impulse_legs@.take(n + 1).drop_last() =~= impulse_legs@.take(n as int));
            lemma_full_prefix(profile@, profile@.len() as int);
        }
        let total: u64 = sum_buckets(&profile);
        let count: u128 = profile.len() as u128;
        let mut k: usize = 0;
        while k < profile.len()
            invariant
                0 <= k <= profile.len(),
                count == profile@.len(),
                total == buckets_volume(profile@),
                buckets_ok(profile@, buckets_volume(profile@) as int),
                levels@ == with_leg_nodes(before, profile@, *leg, k as int),
                in_order(levels@),
            decreases profile.len() - k,
        {
            let bucket = profile[k];
            proof {
                assert(-9_000_000_000 <= profile@[k as int].bucket <= 9_000_000_000);
                assert(bucket.volume as u128 * count <= 0xffff_ffff_ffff_ffff
                    * 0xffff_ffff_ffff_ffff) by (nonlinear_arith)
                    requires
                        bucket.volume <= 0xffff_ffff_ffff_ffff,
                        count <= 0xffff_ffff_ffff_ffff,
                ;
            }
            if is_thin(bucket.volume, count, total) {
                insert_node(
                    &mut levels,
                    LvnLevel {
                        price: bucket.bucket * LVN_BUCKET,
                        volume: bucket.volume,
                        leg_volume: total,
                        leg_buckets: profile.len() as u64,
                        impulse_start_time: leg.start_time,
                        impulse_end_time: leg.end_time,
                        date: leg.date,
                        symbol: leg.symbol.clone(),
                    },
                );
            }
            k += 1;
        }
        n += 1;
    }
    proof {
        assert(impulse_legs@.take(n as int) =~= impulse_legs@);
    }
    levels
}

/// Does a bucket of `volume` hold less than three tenths of the mean of
/// `count` buckets that hold `total` together?
pub fn is_thin(volume: u64, count: u128, total: u64) -> (yes: bool)
    requires
        count <= 0xffff_ffff_ffff_ffff,
    ensures
        yes == (volume * count * 10 < 3 * total),
{
    proof {
        assert(volume as u128 * count <= 0xffff_ffff_ffff_ffff * 0xffff_ffff_ffff_ffff)
            by (nonlinear_arith)
            requires
                volume <= 0xffff_ffff_ffff_ffff,
                count <= 0xffff_ffff_ffff_ffff,
        ;
    }
    let weighed: u128 = volume as u128 * count;
    // Ten times the product may not fit, so the threshold is divided instead.
    weighed <= (3 * total as u128) / 10 && weighed * 10 < 3 * total as u128
}

proof fn lemma_full_prefix(profile: Seq<PriceBucket>, i: int)
    requires
        0 <= i <= profile.len(),
    ensures
        buckets_volume(profile.take(i)) <= buckets_volume(profile),
    decreases profile.len() - i,
{
    if i == profile.len() {
        assert(profile.take(i) =~= profile);
    } else {
        lemma_full_prefix(profile, i + 1);
        assert(profile.take(i + 1).drop_last() =~= profile.take(i));
    }
}

/// Volume of all buckets together.
pub fn sum_buckets(profile: &Vec<PriceBucket>) -> (total: u64)
    requires
        buckets_volume(profile@) <= u64::MAX,
    ensures
        total == buckets_volume(profile@),
{
    let mut total: u64 = 0;
    let mut i: usize = 0;
    while i < profile.len()
        invariant
            0 <= i <= profile.len(),
            buckets_volume(profile@) <= u64::MAX,
            total == buckets_volume(profile@.take(i as int)),
        decreases profile.len() - i,
    {
        proof {
            assert(profile@.take(i + 1).drop_last() =~= profile@.take(i as int));
            lemma_full_prefix(profile@, i + 1);
        }
        total = total + profile[i].volume;
        i += 1;
    }
    proof {
        assert(profile@.take(i as int) =~= profile@);
    }
    total
}

} // verus!
