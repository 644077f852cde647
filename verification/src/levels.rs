//! Daily reference levels: each day's range, open, close and volume, the
//! day before's high, low and close, and the day's volume profile by whole
//! points with its point of control and value area.

use vstd::prelude::*;
use crate::bars::Bar;
use crate::price::PRICE_SCALE;
use crate::trades::{day_of, spec_day_of};

verus! {

/// Most volume that one run of levels is computed over.
pub const MAX_LEVELS_VOLUME: u64 = 9_223_372_036_854_775_807;

/// Largest size of a price, either way, that levels are computed of.
pub const MAX_LEVEL_PRICE: i64 = 4_000_000_000_000_000_000;

/// Reference levels of one day. The day counts from the epoch, by UTC.
#[derive(Clone, Debug, PartialEq, Eq)]
pub struct DailyLevels {
    pub date: i64,
    pub symbol: String,
    pub pdh: i64,
    pub pdl: i64,
    pub pdc: i64,
    pub poc: i64,
    pub vah: i64,
    pub val: i64,
    pub session_high: i64,
    pub session_low: i64,
    pub session_open: i64,
    pub session_close: i64,
    pub total_volume: u64,
}

/// Volume at the prices that round to one whole point.
#[derive(Clone, Copy, Debug, PartialEq, Eq)]
pub struct PriceBucket {
    pub bucket: i64,
    pub volume: u64,
}

/// Is `price` within `tolerance` of `level`?
pub open spec fn spec_is_near_level(price: i64, level: i64, tolerance: i64) -> bool {
    -tolerance <= price - level <= tolerance
}

/// Is `price` within `tolerance` of `level`?
pub fn is_near_level(price: i64, level: i64, tolerance: i64) -> (near: bool)
    ensures
        near == spec_is_near_level(price, level, tolerance),
{
    let gap: i128 = price as i128 - level as i128;
    -(tolerance as i128) <= gap && gap <= tolerance as i128
}

/// The whole point nearest to the middle of `low` and `high`, halves away
/// from zero.
pub open spec fn spec_mid_bucket(low: i64, high: i64) -> i64 {
    (if low + high >= 0 {
        (low + high + PRICE_SCALE) / (2 * PRICE_SCALE)
    } else {
        -((-(low + high) + PRICE_SCALE) / (2 * PRICE_SCALE))
    }) as i64
}

/// The whole point nearest to the middle of `low` and `high`.
pub fn mid_bucket(low: i64, high: i64) -> (bucket: i64)
    ensures
        bucket == spec_mid_bucket(low, high),
        -9_223_372_037 <= bucket <= 9_223_372_037,
{
    let sum: i128 = low as i128 + high as i128;
    if sum >= 0 {
        ((sum + PRICE_SCALE as i128) / (2 * PRICE_SCALE as i128)) as i64
    } else {
        (-((-sum + PRICE_SCALE as i128) / (2 * PRICE_SCALE as i128))) as i64
    }
}

/// The whole point nearest to a price, halves away from zero.
pub fn price_to_bucket(price: i64) -> (bucket: i64)
    ensures
        bucket == spec_mid_bucket(price, price),
{
    mid_bucket(price, price)
}

/// The price of a whole point.
pub fn bucket_to_price(bucket: i64) -> (price: i64)
    requires
        -9_000_000_000 <= bucket <= 9_000_000_000,
    ensures
        price == bucket * PRICE_SCALE,
{
    bucket * PRICE_SCALE
}

/// A bar whose prices levels can be computed of.
pub open spec fn bar_priced(bar: Bar) -> bool {
    &&& -MAX_LEVEL_PRICE <= bar.low <= MAX_LEVEL_PRICE
    &&& -MAX_LEVEL_PRICE <= bar.high <= MAX_LEVEL_PRICE
}

/// Volume of the bars, by their totals.
pub open spec fn total_volume(bars: Seq<Bar>) -> nat
    decreases bars.len(),
{
    if bars.len() == 0 {
        0
    } else {
        total_volume(bars.drop_last()) + bars.last().volume as nat
    }
}

/// Can levels be computed of the bars? Their highs and lows must be within
/// `MAX_LEVEL_PRICE` of zero, and their volume within `MAX_LEVELS_VOLUME`.
pub open spec fn levels_fit(bars: Seq<Bar>) -> bool {
    &&& forall|i: int| 0 <= i < bars.len() ==> bar_priced(#[trigger] bars[i])
    &&& total_volume(bars) <= MAX_LEVELS_VOLUME
}

/// What the bars of one day come to.
pub struct DaySummary {
    pub seen: bool,
    pub symbol: Seq<char>,
    pub high: i64,
    pub low: i64,
    pub open: i64,
    pub close: i64,
    pub volume: nat,
}

/// What the bars of day `day` come to: the first gives the symbol and the
/// open, the last the close.
pub open spec fn day_summary(bars: Seq<Bar>, day: i64) -> DaySummary
    decreases bars.len(),
{
    if bars.len() == 0 {
        DaySummary {
            seen: false,
            symbol: Seq::empty(),
            high: i64::MIN,
            low: i64::MAX,
            open: 0,
            close: 0,
            volume: 0,
        }
    } else {
        let rest = day_summary(bars.drop_last(), day);
        let bar = bars.last();
        if spec_day_of(bar.timestamp) != day {
            rest
        } else {
            DaySummary {
                seen: true,
                symbol: if rest.seen {
                    rest.symbol
                } else {
                    bar.symbol@
                },
                high: if bar.high > rest.high {
                    bar.high
                } else {
                    rest.high
                },
                low: if bar.low < rest.low {
                    bar.low
                } else {
                    rest.low
                },
                open: if rest.seen {
                    rest.open
                } else {
                    bar.open
                },
                close: bar.close,
                volume: rest.volume + bar.volume as nat,
            }
        }
    }
}

/// Number of buckets below `bucket`.
pub open spec fn bucket_rank(buckets: Seq<PriceBucket>, bucket: i64) -> int
    decreases buckets.len(),
{
    if buckets.len() == 0 {
        0
    } else {
        bucket_rank(buckets.drop_last(), bucket) + if buckets.last().bucket < bucket {
            1int
        } else {
            0int
        }
    }
}

/// The buckets with `volume` more at `bucket`.
pub open spec fn with_volume(buckets: Seq<PriceBucket>, bucket: i64, volume: u64) -> Seq<PriceBucket> {
    let i = bucket_rank(buckets, bucket);
    if i < buckets.len() && buckets[i].bucket == bucket {
        buckets.update(i, PriceBucket { bucket, volume: (buckets[i].volume + volume) as u64 })
    } else {
        buckets.insert(i, PriceBucket { bucket, volume })
    }
}

/// The volume profile of day `day`, ascending: every bar's volume stands at
/// the whole point nearest to the middle of its range.
pub open spec fn day_profile(bars: Seq<Bar>, day: i64) -> Seq<PriceBucket>
    decreases bars.len(),
{
    if bars.len() == 0 {
        Seq::empty()
    } else {
        let rest = day_profile(bars.drop_last(), day);
        let bar = bars.last();
        if spec_day_of(bar.timestamp) != day {
            rest
        } else {
            with_volume(rest, spec_mid_bucket(bar.low, bar.high), bar.volume)
        }
    }
}

/// Index of the first bucket that none exceeds in volume.
pub open spec fn first_max(buckets: Seq<PriceBucket>) -> int
    decreases buckets.len(),
{
    if buckets.len() <= 1 {
        0
    } else {
        let best = first_max(buckets.drop_last());
        if buckets.last().volume > buckets[best].volume {
            buckets.len() - 1
        } else {
            best
        }
    }
}

/// Volume of all buckets together.
pub open spec fn buckets_volume(buckets: Seq<PriceBucket>) -> nat
    decreases buckets.len(),
{
    if buckets.len() == 0 {
        0
    } else {
        buckets_volume(buckets.drop_last()) + buckets.last().volume as nat
    }
}

/// The volume that the value area is to hold: 70 % of the whole, rounded
/// down.
pub open spec fn value_target(total: nat) -> int {
    (total * 7) as int / 10
}

/// Grows the band of buckets from index `lo` to index `hi`, which holds
/// `held`, until it holds `target` or reaches both ends: downwards where the
/// bucket below holds as much as the one above or more, upwards otherwise,
/// and towards the end that is left where one is reached.
pub open spec fn grow(buckets: Seq<PriceBucket>, lo: int, hi: int, held: int, target: int) -> (int, int)
    decreases lo + buckets.len() - hi,
{
    let can_lower = lo > 0;
    let can_higher = hi < buckets.len() - 1;
    if held >= target || (!can_lower && !can_higher) || lo < 0 || lo > hi || hi >= buckets.len() {
        (lo, hi)
    } else {
        let lower: int = if can_lower {
            buckets[lo - 1].volume as int
        } else {
            0
        };
        let upper: int = if can_higher {
            buckets[hi + 1].volume as int
        } else {
            0
        };
        if lower >= upper && can_lower {
            grow(buckets, lo - 1, hi, held + lower, target)
        } else if can_higher {
            grow(buckets, lo, hi + 1, held + upper, target)
        } else {
            grow(buckets, lo - 1, hi, held + lower, target)
        }
    }
}

/// Point of control, value area high and value area low of a profile, as
/// prices; three zeros for an empty profile.
pub open spec fn profile_levels(buckets: Seq<PriceBucket>) -> (i64, i64, i64) {
    if buckets.len() == 0 {
        (0, 0, 0)
    } else {
        let p = first_max(buckets);
        let (lo, hi) = grow(
            buckets,
            p,
            p,
            buckets[p].volume as int,
            value_target(buckets_volume(buckets)),
        );
        (
            (buckets[p].bucket * PRICE_SCALE) as i64,
            (buckets[hi].bucket * PRICE_SCALE) as i64,
            (buckets[lo].bucket * PRICE_SCALE) as i64,
        )
    }
}

/// `days` with `day` in its place, once.
pub open spec fn with_day(days: Seq<i64>, day: i64) -> Seq<i64> {
    let i = day_rank(days, day);
    if i < days.len() && days[i] == day {
        days
    } else {
        days.insert(i, day)
    }
}

/// Number of days before `day`.
pub open spec fn day_rank(days: Seq<i64>, day: i64) -> int
    decreases days.len(),
{
    if days.len() == 0 {
        0
    } else {
        day_rank(days.drop_last(), day) + if days.last() < day {
            1int
        } else {
            0int
        }
    }
}

/// The days that have bars, ascending.
pub open spec fn days_of(bars: Seq<Bar>) -> Seq<i64>
    decreases bars.len(),
{
    if bars.len() == 0 {
        Seq::empty()
    } else {
        with_day(days_of(bars.drop_last()), spec_day_of(bars.last().timestamp))
    }
}

/// Are these the levels of day `day`, with `before` the day with bars
/// before it? The first day with bars takes its own high, low and open for
/// the levels of the day before.
pub open spec fn describes(levels: DailyLevels, bars: Seq<Bar>, day: i64, before: Option<i64>) -> bool {
    let today = day_summary(bars, day);
    let (poc, vah, val) = profile_levels(day_profile(bars, day));
    &&& levels.date == day
    &&& levels.symbol@ == today.symbol
    &&& levels.session_high == today.high
    &&& levels.session_low == today.low
    &&& levels.session_open == today.open
    &&& levels.session_close == today.close
    &&& levels.total_volume == today.volume
    &&& levels.poc == poc
    &&& levels.vah == vah
    &&& levels.val == val
    &&& match before {
        Some(prior) => {
            let yesterday = day_summary(bars, prior);
            levels.pdh == yesterday.high && levels.pdl == yesterday.low && levels.pdc
                == yesterday.close
        },
        None => levels.pdh == today.high && levels.pdl == today.low && levels.pdc == today.open,
    }
}

/// Are these the levels of the bars, day by day?
pub open spec fn are_levels_of(levels: Seq<DailyLevels>, bars: Seq<Bar>) -> bool {
    &&& levels.len() == days_of(bars).len()
    &&& forall|k: int|
        0 <= k < levels.len() ==> describes(
            #[trigger] levels[k],
            bars,
            days_of(bars)[k],
            if k > 0 {
                Some(days_of(bars)[k - 1])
            } else {
                None
            },
        )
}

proof fn lemma_day_rank(days: Seq<i64>, day: i64, i: int)
    requires
        0 <= i <= days.len(),
        forall|j: int| 0 <= j < i ==> days[j] < day,
        forall|j: int| i <= j < days.len() ==> days[j] >= day,
    ensures
        day_rank(days, day) == i,
    decreases days.len(),
{
    if days.len() > 0 {
        let rest = days.drop_last();
        if i == days.len() {
            lemma_day_rank(rest, day, i - 1);
        } else {
            lemma_day_rank(rest, day, i);
        }
    }
}

proof fn lemma_bucket_rank(buckets: Seq<PriceBucket>, bucket: i64, i: int)
    requires
        0 <= i <= buckets.len(),
        forall|j: int| 0 <= j < i ==> (#[trigger] buckets[j]).bucket < bucket,
        forall|j: int| i <= j < buckets.len() ==> (#[trigger] buckets[j]).bucket >= bucket,
    ensures
        bucket_rank(buckets, bucket) == i,
    decreases buckets.len(),
{
    if buckets.len() > 0 {
        let rest = buckets.drop_last();
        if i == buckets.len() {
            assert(buckets[buckets.len() - 1].bucket < bucket);
            assert forall|j: int| 0 <= j < i - 1 implies (#[trigger] rest[j]).bucket < bucket by {
                assert(rest[j] == buckets[j]);
            }
            lemma_bucket_rank(rest, bucket, i - 1);
        } else {
            assert(buckets[buckets.len() - 1].bucket >= bucket);
            assert forall|j: int| 0 <= j < i implies (#[trigger] rest[j]).bucket < bucket by {
                assert(rest[j] == buckets[j]);
            }
            assert forall|j: int| i <= j < rest.len() implies (#[trigger] rest[j]).bucket
                >= bucket by {
                assert(rest[j] == buckets[j]);
            }
            lemma_bucket_rank(rest, bucket, i);
        }
    }
}

/// Buckets as a profile keeps them: ascending, within reach of a price, and
/// holding `volume` together.
pub open spec fn buckets_ok(buckets: Seq<PriceBucket>, volume: int) -> bool {
    &&& forall|i: int, j: int|
        0 <= i < j < buckets.len() ==> (#[trigger] buckets[i]).bucket < (#[trigger] buckets[j]).bucket
    &&& forall|i: int|
        0 <= i < buckets.len() ==> -9_000_000_000 <= (#[trigger] buckets[i]).bucket
            <= 9_000_000_000
    &&& buckets_volume(buckets) == volume
}

proof fn lemma_volume_insert(buckets: Seq<PriceBucket>, i: int, b: PriceBucket)
    requires
        0 <= i <= buckets.len(),
    ensures
        buckets_volume(buckets.insert(i, b)) == buckets_volume(buckets) + b.volume,
    decreases buckets.len(),
{
    let after = buckets.insert(i, b);
    if i == buckets.len() {
        assert(after.drop_last() =~= buckets);
    } else {
        assert(after.drop_last() =~= buckets.drop_last().insert(i, b));
        lemma_volume_insert(buckets.drop_last(), i, b);
    }
}

proof fn lemma_volume_update(buckets: Seq<PriceBucket>, i: int, b: PriceBucket)
    requires
        0 <= i < buckets.len(),
    ensures
        buckets_volume(buckets.update(i, b)) == buckets_volume(buckets) - buckets[i].volume
            + b.volume,
        buckets[i].volume <= buckets_volume(buckets),
    decreases buckets.len(),
{
    let after = buckets.update(i, b);
    if i == buckets.len() - 1 {
        assert(after.drop_last() =~= buckets.drop_last());
    } else {
        assert(after.drop_last() =~= buckets.drop_last().update(i, b));
        lemma_volume_update(buckets.drop_last(), i, b);
    }
}

/// Putting more volume at a bucket keeps a profile in order and adds to what
/// it holds.
pub proof fn lemma_with_volume_ok(buckets: Seq<PriceBucket>, bucket: i64, volume: u64)
    requires
        -9_000_000_000 <= bucket <= 9_000_000_000,
        buckets_ok(buckets, buckets_volume(buckets) as int),
        buckets_volume(buckets) + volume <= u64::MAX,
    ensures
        buckets_ok(with_volume(buckets, bucket, volume), buckets_volume(buckets) + volume),
{
    let i = bucket_rank(buckets, bucket);
    lemma_bucket_rank_split(buckets, bucket);
    let after = with_volume(buckets, bucket, volume);
    if i < buckets.len() && buckets[i].bucket == bucket {
        lemma_volume_update(
            buckets,
            i,
            PriceBucket { bucket, volume: (buckets[i].volume + volume) as u64 },
        );
        assert forall|k: int, l: int| 0 <= k < l < after.len() implies (#[trigger] after[k]).bucket
            < (#[trigger] after[l]).bucket by {
            assert(buckets[k].bucket < buckets[l].bucket);
        }
        assert forall|k: int| 0 <= k < after.len() implies -9_000_000_000 <= (
        #[trigger] after[k]).bucket <= 9_000_000_000 by {
            assert(-9_000_000_000 <= buckets[k].bucket <= 9_000_000_000);
        }
    } else {
        lemma_volume_insert(buckets, i, PriceBucket { bucket, volume });
        assert forall|k: int, l: int| 0 <= k < l < after.len() implies (#[trigger] after[k]).bucket
            < (#[trigger] after[l]).bucket by {
            if l < i {
                assert(buckets[k].bucket < buckets[l].bucket);
            } else if l == i {
                assert(buckets[k].bucket < bucket);
            } else if k < i {
                assert(buckets[k].bucket < bucket);
                assert(buckets[l - 1].bucket >= bucket);
            } else if k == i {
                assert(buckets[l - 1].bucket >= bucket);
                if i < buckets.len() {
                    assert(buckets[i].bucket >= bucket);
                    assert(buckets[i].bucket <= buckets[l - 1].bucket) by {
                        if i < l - 1 {
                            assert(buckets[i].bucket < buckets[l - 1].bucket);
                        }
                    }
                }
            } else {
                assert(buckets[k - 1].bucket < buckets[l - 1].bucket);
            }
        }
        assert forall|k: int| 0 <= k < after.len() implies -9_000_000_000 <= (
        #[trigger] after[k]).bucket <= 9_000_000_000 by {
            if k < i {
                assert(-9_000_000_000 <= buckets[k].bucket <= 9_000_000_000);
            } else if k > i {
                assert(-9_000_000_000 <= buckets[k - 1].bucket <= 9_000_000_000);
            }
        }
    }
}

proof fn lemma_bucket_rank_split(buckets: Seq<PriceBucket>, bucket: i64)
    requires
        forall|i: int, j: int|
            0 <= i < j < buckets.len() ==> (#[trigger] buckets[i]).bucket
                < (#[trigger] buckets[j]).bucket,
    ensures
        0 <= bucket_rank(buckets, bucket) <= buckets.len(),
        forall|j: int|
            0 <= j < bucket_rank(buckets, bucket) ==> (#[trigger] buckets[j]).bucket < bucket,
        forall|j: int|
            bucket_rank(buckets, bucket) <= j < buckets.len() ==> (#[trigger] buckets[j]).bucket
                >= bucket,
    decreases buckets.len(),
{
    if buckets.len() > 0 {
        let rest = buckets.drop_last();
        assert forall|i: int, j: int| 0 <= i < j < rest.len() implies (#[trigger] rest[i]).bucket
            < (#[trigger] rest[j]).bucket by {
            assert(rest[i] == buckets[i] && rest[j] == buckets[j]);
        }
        lemma_bucket_rank_split(rest, bucket);
        let r = bucket_rank(rest, bucket);
        let n = buckets.len() as int;
        if buckets.last().bucket < bucket {
            if r < rest.len() {
                assert(rest[r].bucket >= bucket);
                assert(buckets[r].bucket < buckets[n - 1].bucket);
            }
            assert(r == n - 1);
            assert forall|j: int| 0 <= j < n implies (#[trigger] buckets[j]).bucket < bucket by {
                if j < n - 1 {
                    assert(rest[j].bucket < bucket);
                }
            }
        } else {
            assert forall|j: int| 0 <= j < r implies (#[trigger] buckets[j]).bucket < bucket by {
                assert(rest[j].bucket < bucket);
            }
            assert forall|j: int| r <= j < n implies (#[trigger] buckets[j]).bucket >= bucket by {
                if j < n - 1 {
                    assert(rest[j].bucket >= bucket);
                }
            }
        }
    }
}

/// Puts `volume` more at `bucket`.
pub fn add_volume(buckets: &mut Vec<PriceBucket>, bucket: i64, volume: u64)
    requires
        -9_000_000_000 <= bucket <= 9_000_000_000,
        buckets_ok(old(buckets)@, buckets_volume(old(buckets)@) as int),
        buckets_volume(old(buckets)@) + volume <= u64::MAX,
    ensures
        final(buckets)@ == with_volume(old(buckets)@, bucket, volume),
        buckets_ok(final(buckets)@, buckets_volume(old(buckets)@) + volume),
{
    let ghost before = buckets@;
    let mut i: usize = buckets.len();
    while i > 0 && buckets[i - 1].bucket >= bucket
        invariant
            0 <= i <= buckets.len(),
            buckets@ == before,
            forall|j: int| i <= j < before.len() ==> (#[trigger] before[j]).bucket >= bucket,
        decreases i,
    {
        i -= 1;
    }
    proof {
        assert forall|j: int| 0 <= j < i implies (#[trigger] before[j]).bucket < bucket by {
            if j < i - 1 {
                assert(before[j].bucket < before[i - 1].bucket);
            }
        }
        lemma_bucket_rank(before, bucket, i as int);
    }
    if i < buckets.len() && buckets[i].bucket == bucket {
        proof {
            lemma_volume_update(
                before,
                i as int,
                PriceBucket { bucket, volume: (before[i as int].volume + volume) as u64 },
            );
        }
        let grown = PriceBucket { bucket, volume: buckets[i].volume + volume };
        buckets[i] = grown;
        proof {
            let after = buckets@;
            assert forall|k: int, l: int| 0 <= k < l < after.len() implies (
            #[trigger] after[k]).bucket < (#[trigger] after[l]).bucket by {
                assert(before[k].bucket < before[l].bucket);
            }
            assert forall|k: int| 0 <= k < after.len() implies -9_000_000_000 <= (
            #[trigger] after[k]).bucket <= 9_000_000_000 by {
                assert(-9_000_000_000 <= before[k].bucket <= 9_000_000_000);
            }
        }
    } else {
        proof {
            lemma_volume_insert(before, i as int, PriceBucket { bucket, volume });
        }
        buckets.insert(i, PriceBucket { bucket, volume });
        proof {
            let after = buckets@;
            assert forall|k: int, l: int| 0 <= k < l < after.len() implies (
            #[trigger] after[k]).bucket < (#[trigger] after[l]).bucket by {
                if l < i {
                    assert(before[k].bucket < before[l].bucket);
                } else if l == i {
                    assert(before[k].bucket < bucket);
                } else if k < i {
                    assert(before[k].bucket < bucket);
                    assert(before[l - 1].bucket >= bucket);
                } else if k == i {
                    assert(before[l - 1].bucket >= bucket);
                } else {
                    assert(before[k - 1].bucket < before[l - 1].bucket);
                }
            }
            assert forall|k: int| 0 <= k < after.len() implies -9_000_000_000 <= (
            #[trigger] after[k]).bucket <= 9_000_000_000 by {
                if k < i {
                    assert(-9_000_000_000 <= before[k].bucket <= 9_000_000_000);
                } else if k > i {
                    assert(-9_000_000_000 <= before[k - 1].bucket <= 9_000_000_000);
                }
            }
        }
    }
}

/// Point of control, value area high and value area low of a profile, as
/// prices.
pub fn compute_volume_profile(buckets: &Vec<PriceBucket>) -> (levels: (i64, i64, i64))
    requires
        buckets_ok(buckets@, buckets_volume(buckets@) as int),
        buckets_volume(buckets@) <= u64::MAX,
    ensures
        levels == profile_levels(buckets@),
{
    if buckets.len() == 0 {
        return (0, 0, 0);
    }
    let mut poc: usize = 0;
    let mut total: u64 = buckets[0].volume;
    let mut i: usize = 1;
    proof {
        assert(buckets@.take(1).drop_last() =~= Seq::<PriceBucket>::empty());
        assert(buckets@.take(1).last() == buckets@[0]);
        assert(buckets_volume(buckets@.take(1).drop_last()) == 0);
        lemma_buckets_prefix(buckets@, 1);
    }
    while i < buckets.len()
        invariant
            1 <= i <= buckets.len(),
            poc < i,
            poc == first_max(buckets@.take(i as int)),
            total == buckets_volume(buckets@.take(i as int)),
            buckets_volume(buckets@) <= u64::MAX,
        decreases buckets.len() - i,
    {
        proof {
            assert(buckets@.take(i + 1).drop_last() =~= buckets@.take(i as int));
            lemma_buckets_prefix(buckets@, i + 1);
        }
        if buckets[i].volume > buckets[poc].volume {
            poc = i;
        }
        total = total + buckets[i].volume;
        i += 1;
    }
    proof {
        assert(buckets@.take(i as int) =~= buckets@);
    }
    let target: u128 = (total as u128 * 7) / 10;
    let mut lo: usize = poc;
    let mut hi: usize = poc;
    let mut held: u128 = buckets[poc].volume as u128;
    loop
        invariant
            0 <= lo <= hi < buckets.len(),
            held <= (hi - lo + 1) * 0x1_0000_0000_0000_0000,
            target == value_target(buckets_volume(buckets@)),
            grow(buckets@, lo as int, hi as int, held as int, target as int) == grow(
                buckets@,
                poc as int,
                poc as int,
                buckets@[poc as int].volume as int,
                target as int,
            ),
        ensures
            0 <= lo <= hi < buckets.len(),
            (lo as int, hi as int) == grow(
                buckets@,
                poc as int,
                poc as int,
                buckets@[poc as int].volume as int,
                target as int,
            ),
        decreases lo + buckets.len() - hi,
    {
        let can_lower = lo > 0;
        let can_higher = hi < buckets.len() - 1;
        if held >= target || (!can_lower && !can_higher) {
            break;
        }
        let lower: u64 = if can_lower {
            buckets[lo - 1].volume
        } else {
            0
        };
        let upper: u64 = if can_higher {
            buckets[hi + 1].volume
        } else {
            0
        };
        if lower >= upper && can_lower {
            lo = lo - 1;
            held = held + lower as u128;
        } else if can_higher {
            hi = hi + 1;
            held = held + upper as u128;
        } else {
            lo = lo - 1;
            held = held + lower as u128;
        }
    }
    (
        buckets[poc].bucket * PRICE_SCALE,
        buckets[hi].bucket * PRICE_SCALE,
        buckets[lo].bucket * PRICE_SCALE,
    )
}

proof fn lemma_buckets_prefix(buckets: Seq<PriceBucket>, i: int)
    requires
        0 <= i <= buckets.len(),
    ensures
        buckets_volume(buckets.take(i)) <= buckets_volume(buckets),
    decreases buckets.len() - i,
{
    if i == buckets.len() {
        assert(buckets.take(i) =~= buckets);
    } else {
        lemma_buckets_prefix(buckets, i + 1);
        assert(buckets.take(i + 1).drop_last() =~= buckets.take(i));
    }
}

proof fn lemma_total_prefix(bars: Seq<Bar>, i: int)
    requires
        0 <= i <= bars.len(),
    ensures
        total_volume(bars.take(i)) <= total_volume(bars),
    decreases bars.len() - i,
{
    if i == bars.len() {
        assert(bars.take(i) =~= bars);
    } else {
        lemma_total_prefix(bars, i + 1);
        assert(bars.take(i + 1).drop_last() =~= bars.take(i));
    }
}

proof fn lemma_day_within_total(bars: Seq<Bar>, day: i64)
    requires
        total_volume(bars) <= u64::MAX,
    ensures
        day_summary(bars, day).volume <= total_volume(bars),
        buckets_volume(day_profile(bars, day)) == day_summary(bars, day).volume,
    decreases bars.len(),
{
    if bars.len() > 0 {
        lemma_day_within_total(bars.drop_last(), day);
        let rest = day_profile(bars.drop_last(), day);
        let bar = bars.last();
        if spec_day_of(bar.timestamp) == day {
            let bucket = spec_mid_bucket(bar.low, bar.high);
            let i = bucket_rank(rest, bucket);
            lemma_bucket_rank_in_range(rest, bucket);
            if i < rest.len() && rest[i].bucket == bucket {
                lemma_volume_update(
                    rest,
                    i,
                    PriceBucket { bucket, volume: (rest[i].volume + bar.volume) as u64 },
                );
            } else {
                lemma_volume_insert(rest, i, PriceBucket { bucket, volume: bar.volume });
            }
        }
    }
}

proof fn lemma_bucket_rank_in_range(buckets: Seq<PriceBucket>, bucket: i64)
    ensures
        0 <= bucket_rank(buckets, bucket) <= buckets.len(),
    decreases buckets.len(),
{
    if buckets.len() > 0 {
        lemma_bucket_rank_in_range(buckets.drop_last(), bucket);
    }
}

/// The days that have bars, ascending.
pub fn distinct_days(bars: &Vec<Bar>) -> (days: Vec<i64>)
    ensures
        days@ == days_of(bars@),
        forall|i: int, j: int| 0 <= i < j < days@.len() ==> days@[i] < days@[j],
{
    let mut days: Vec<i64> = Vec::new();
    let mut n: usize = 0;
    proof {
        assert(bars@.take(0) =~= Seq::<Bar>::empty());
    }
    while n < bars.len()
        invariant
            0 <= n <= bars.len(),
            days@ == days_of(bars@.take(n as int)),
            forall|i: int, j: int| 0 <= i < j < days@.len() ==> days@[i] < days@[j],
        decreases bars.len() - n,
    {
        let day = day_of(bars[n].timestamp);
        let ghost before = days@;
        proof {
            assert(bars@.take(n + 1).drop_last() =~= bars@.take(n as int));
        }
        let mut i: usize = days.len();
        while i > 0 && days[i - 1] >= day
            invariant
                0 <= i <= days.len(),
                days@ == before,
                forall|j: int| i <= j < before.len() ==> before[j] >= day,
            decreases i,
        {
            i -= 1;
        }
        proof {
            assert forall|j: int| 0 <= j < i implies before[j] < day by {
                if j < i - 1 {
                    assert(before[j] < before[i - 1]);
                }
            }
            lemma_day_rank(before, day, i as int);
        }
        if !(i < days.len() && days[i] == day) {
            days.insert(i, day);
        }
        n += 1;
    }
    proof {
        assert(bars@.take(n as int) =~= bars@);
    }
    days
}

/// What the bars of one day come to, as the computation holds it.
pub struct DayFigures {
    pub symbol: String,
    pub high: i64,
    pub low: i64,
    pub open: i64,
    pub close: i64,
    pub volume: u64,
}

/// Adds up the bars of day `day`.
pub fn summarize_day(bars: &Vec<Bar>, day: i64) -> (figures: DayFigures)
    requires
        total_volume(bars@) <= u64::MAX,
    ensures
        figures.symbol@ == day_summary(bars@, day).symbol,
        figures.high == day_summary(bars@, day).high,
        figures.low == day_summary(bars@, day).low,
        figures.open == day_summary(bars@, day).open,
        figures.close == day_summary(bars@, day).close,
        figures.volume == day_summary(bars@, day).volume,
{
    let mut figures = DayFigures {
        symbol: String::new(),
        high: i64::MIN,
        low: i64::MAX,
        open: 0,
        close: 0,
        volume: 0,
    };
    let mut seen = false;
    let mut i: usize = 0;
    proof {
        assert(bars@.take(0) =~= Seq::<Bar>::empty());
    }
    while i < bars.len()
        invariant
            0 <= i <= bars.len(),
            total_volume(bars@) <= u64::MAX,
            seen == day_summary(bars@.take(i as int), day).seen,
            figures.symbol@ == day_summary(bars@.take(i as int), day).symbol,
            figures.high == day_summary(bars@.take(i as int), day).high,
            figures.low == day_summary(bars@.take(i as int), day).low,
            figures.open == day_summary(bars@.take(i as int), day).open,
            figures.close == day_summary(bars@.take(i as int), day).close,
            figures.volume == day_summary(bars@.take(i as int), day).volume,
        decreases bars.len() - i,
    {
        let bar = &bars[i];
        proof {
            assert(bars@.take(i + 1).drop_last() =~= bars@.take(i as int));
            lemma_total_prefix(bars@, i + 1);
            lemma_day_within_total(bars@.take(i + 1), day);
        }
        if day_of(bar.timestamp) == day {
            if !seen {
                figures.symbol = bar.symbol.clone();
                figures.open = bar.open;
                seen = true;
            }
            if bar.high > figures.high {
                figures.high = bar.high;
            }
            if bar.low < figures.low {
                figures.low = bar.low;
            }
            figures.close = bar.close;
            figures.volume = figures.volume + bar.volume;
        }
        i += 1;
    }
    proof {
        assert(bars@.take(i as int) =~= bars@);
    }
    figures
}

/// The volume profile of day `day`, ascending.
pub fn profile_of_day(bars: &Vec<Bar>, day: i64) -> (buckets: Vec<PriceBucket>)
    requires
        levels_fit(bars@),
    ensures
        buckets@ == day_profile(bars@, day),
        buckets_ok(buckets@, day_summary(bars@, day).volume as int),
{
    let mut buckets: Vec<PriceBucket> = Vec::new();
    let mut i: usize = 0;
    proof {
        assert(bars@.take(0) =~= Seq::<Bar>::empty());
    }
    while i < bars.len()
        invariant
            0 <= i <= bars.len(),
            levels_fit(bars@),
            buckets@ == day_profile(bars@.take(i as int), day),
            buckets_ok(buckets@, day_summary(bars@.take(i as int), day).volume as int),
        decreases bars.len() - i,
    {
        let bar = &bars[i];
        proof {
            assert(bars@.take(i + 1).drop_last() =~= bars@.take(i as int));
            lemma_total_prefix(bars@, i + 1);
            lemma_day_within_total(bars@.take(i + 1), day);
            assert(bar_priced(bars@[i as int]));
        }
        if day_of(bar.timestamp) == day {
            add_volume(&mut buckets, mid_bucket(bar.low, bar.high), bar.volume);
        }
        i += 1;
    }
    proof {
        assert(bars@.take(i as int) =~= bars@);
    }
    buckets
}

/// Can levels be computed of the bars?
pub fn levels_can_compute(bars: &Vec<Bar>) -> (yes: bool)
    ensures
        yes == levels_fit(bars@),
{
    let mut volume: u64 = 0;
    let mut i: usize = 0;
    while i < bars.len()
        invariant
            0 <= i <= bars.len(),
            volume == total_volume(bars@.take(i as int)),
            volume <= MAX_LEVELS_VOLUME,
            forall|k: int| 0 <= k < i ==> bar_priced(#[trigger] bars@[k]),
        decreases bars.len() - i,
    {
        let bar = &bars[i];
        proof {
            assert(bars@.take(i + 1).drop_last() =~= bars@.take(i as int));
            lemma_total_prefix(bars@, i + 1);
        }
        if bar.low < -MAX_LEVEL_PRICE || bar.low > MAX_LEVEL_PRICE || bar.high < -MAX_LEVEL_PRICE
            || bar.high > MAX_LEVEL_PRICE {
            return false;
        }
        if bar.volume > MAX_LEVELS_VOLUME - volume {
            return false;
        }
        volume = volume + bar.volume;
        i += 1;
    }
    proof {
        assert(bars@.take(i as int) =~= bars@);
    }
    true
}

/// Computes the reference levels of every day that has bars, in the order
/// of the days.
pub fn compute_daily_levels(bars: &Vec<Bar>) -> (levels: Vec<DailyLevels>)
    requires
        levels_fit(bars@),
    ensures
        are_levels_of(levels@, bars@),
{
    let days = distinct_days(bars);
    let mut levels: Vec<DailyLevels> = Vec::new();
    let mut k: usize = 0;
    while k < days.len()
        invariant
            0 <= k <= days.len(),
            levels_fit(bars@),
            days@ == days_of(bars@),
            levels@.len() == k,
            forall|m: int|
                0 <= m < k ==> describes(
                    #[trigger] levels@[m],
                    bars@,
                    days@[m],
                    if m > 0 {
                        Some(days@[m - 1])
                    } else {
                        None
                    },
                ),
        decreases days.len() - k,
    {
        let day = days[k];
        let today = summarize_day(bars, day);
        let profile = profile_of_day(bars, day);
        proof {
            lemma_day_within_total(bars@, day);
        }
        let (poc, vah, val) = compute_volume_profile(&profile);
        let (pdh, pdl, pdc) = if k > 0 {
            let yesterday = summarize_day(bars, days[k - 1]);
            (yesterday.high, yesterday.low, yesterday.close)
        } else {
            (today.high, today.low, today.open)
        };
        let ghost before = levels@;
        levels.push(
            DailyLevels {
                date: day,
                symbol: today.symbol,
                pdh,
                pdl,
                pdc,
                poc,
                vah,
                val,
                session_high: today.high,
                session_low: today.low,
                session_open: today.open,
                session_close: today.close,
                total_volume: today.volume,
            },
        );
        proof {
            assert forall|m: int| 0 <= m < k + 1 implies describes(
                #[trigger] levels@[m],
                bars@,
                days@[m],
                if m > 0 {
                    Some(days@[m - 1])
                } else {
                    None
                },
            ) by {
                if m < k {
                    assert(levels@[m] == before[m]);
                }
            }
        }
        k += 1;
    }
    levels
}

} // verus!
