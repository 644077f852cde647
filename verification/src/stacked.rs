//! Stacked imbalances: runs of consecutive one-point buckets of the volume
//! profile that one side dominates.

use vstd::prelude::*;
use crate::price::{point_floor, spec_point_floor, PRICE_SCALE};
use crate::profile::{sum_buy, sum_sell, ProfileView, VolumeProfile, MAX_SESSION_VOLUME};
use crate::retention::{elapsed, spec_elapsed};
use crate::types::{Side, StackedImbalance, VolumeProfileLevel};

verus! {

/// Least time between two stacked imbalances, in milliseconds.
pub const STACK_COOLDOWN_MS: u64 = 30_000;

/// Least volume of a one-point bucket that counts.
pub const MIN_LEVEL_VOLUME: u64 = 100;

/// Least number of buckets in a run that is announced.
pub const MIN_STACK_LEVELS: u64 = 4;

/// Highest one-point bucket there can be.
pub const MAX_POINT: i64 = 1_000_000_000;

/// Volume by side of the prices from one whole point up to the next.
#[derive(Clone, Copy, Debug, PartialEq, Eq)]
pub struct PointBucket {
    pub point: i64,
    pub buy_volume: u64,
    pub sell_volume: u64,
}

/// The one-point buckets of the levels, from the lowest up: each holds the
/// volume of the levels whose price, rounded down to a whole point, is its
/// point.
pub open spec fn spec_point_buckets(levels: Seq<VolumeProfileLevel>) -> Seq<PointBucket>
    decreases levels.len(),
{
    if levels.len() == 0 {
        Seq::empty()
    } else {
        let rest = spec_point_buckets(levels.drop_last());
        let level = levels.last();
        let point = spec_point_floor(level.price as int) as i64;
        if rest.len() > 0 && rest.last().point == point {
            rest.update(
                rest.len() - 1,
                PointBucket {
                    point,
                    buy_volume: (rest.last().buy_volume + level.buy_volume) as u64,
                    sell_volume: (rest.last().sell_volume + level.sell_volume) as u64,
                },
            )
        } else {
            rest.push(
                PointBucket { point, buy_volume: level.buy_volume, sell_volume: level.sell_volume },
            )
        }
    }
}

/// Buy volume of all buckets together.
pub open spec fn buckets_buy(buckets: Seq<PointBucket>) -> nat
    decreases buckets.len(),
{
    if buckets.len() == 0 {
        0
    } else {
        buckets_buy(buckets.drop_last()) + buckets.last().buy_volume as nat
    }
}

/// Sell volume of all buckets together.
pub open spec fn buckets_sell(buckets: Seq<PointBucket>) -> nat
    decreases buckets.len(),
{
    if buckets.len() == 0 {
        0
    } else {
        buckets_sell(buckets.drop_last()) + buckets.last().sell_volume as nat
    }
}

/// Buckets as the profile yields them: points in range, ascending, and no
/// more volume than a session can hold.
pub open spec fn buckets_ok(buckets: Seq<PointBucket>) -> bool {
    &&& forall|k: int| 0 <= k < buckets.len() ==> 0 <= (#[trigger] buckets[k]).point <= MAX_POINT
    &&& forall|k: int, l: int|
        0 <= k < l < buckets.len() ==> (#[trigger] buckets[k]).point < (#[trigger] buckets[l]).point
    &&& buckets_buy(buckets) + buckets_sell(buckets) <= MAX_SESSION_VOLUME
}

/// The side that dominates a bucket: buy with 70 % of the volume or more,
/// sell with 30 % or less, none in between and none below the least volume.
pub open spec fn spec_bucket_side(bucket: PointBucket) -> Option<Side> {
    let total = bucket.buy_volume + bucket.sell_volume;
    if total < MIN_LEVEL_VOLUME {
        None
    } else if bucket.buy_volume * 10 >= total * 7 {
        Some(Side::Buy)
    } else if bucket.buy_volume * 10 <= total * 3 {
        Some(Side::Sell)
    } else {
        None
    }
}

/// Imbalance of a bucket: the difference of its two sides.
pub open spec fn spec_gap(bucket: PointBucket) -> nat {
    if bucket.buy_volume >= bucket.sell_volume {
        (bucket.buy_volume - bucket.sell_volume) as nat
    } else {
        (bucket.sell_volume - bucket.buy_volume) as nat
    }
}

/// Does the bucket at index `k` carry on the run of the bucket before it? It
/// does where both are dominated by the same side and are one point apart.
pub open spec fn extends(buckets: Seq<PointBucket>, k: int) -> bool {
    &&& 1 <= k < buckets.len()
    &&& spec_bucket_side(buckets[k]).is_some()
    &&& spec_bucket_side(buckets[k - 1]) == spec_bucket_side(buckets[k])
    &&& buckets[k].point == buckets[k - 1].point + 1
}

/// Number of buckets in the run that ends at index `k`: zero where no side
/// dominates that bucket.
pub open spec fn streak_len(buckets: Seq<PointBucket>, k: int) -> nat
    decreases k,
{
    if k < 0 || k >= buckets.len() || spec_bucket_side(buckets[k]).is_none() {
        0
    } else if extends(buckets, k) {
        streak_len(buckets, k - 1) + 1
    } else {
        1
    }
}

/// Imbalance of the run that ends at index `k`, its buckets together.
pub open spec fn streak_imbalance(buckets: Seq<PointBucket>, k: int) -> nat
    decreases k,
{
    if k < 0 || k >= buckets.len() || spec_bucket_side(buckets[k]).is_none() {
        0
    } else if extends(buckets, k) {
        streak_imbalance(buckets, k - 1) + spec_gap(buckets[k])
    } else {
        spec_gap(buckets[k])
    }
}

/// Among the first `n` buckets, the index where the longest run ends; the
/// first such index where several runs are as long.
pub open spec fn best_end(buckets: Seq<PointBucket>, n: int) -> int
    decreases n,
{
    if n <= 1 {
        0
    } else {
        let best = best_end(buckets, n - 1);
        if streak_len(buckets, n - 1) > streak_len(buckets, best) {
            n - 1
        } else {
            best
        }
    }
}

/// A run of dominated buckets.
#[derive(Clone, Copy, Debug, PartialEq, Eq)]
pub struct Stack {
    pub side: Side,
    pub level_count: u64,
    pub low_point: i64,
    pub high_point: i64,
    pub total_imbalance: u64,
}

/// The longest run of the buckets, the lowest of the longest; absent where no
/// bucket is dominated.
pub open spec fn spec_best_stack(buckets: Seq<PointBucket>) -> Option<Stack> {
    let end = best_end(buckets, buckets.len() as int);
    let count = streak_len(buckets, end);
    if count == 0 {
        None
    } else {
        Some(
            Stack {
                side: spec_bucket_side(buckets[end]).unwrap(),
                level_count: count as u64,
                low_point: buckets[end - count + 1].point,
                high_point: buckets[end].point,
                total_imbalance: streak_imbalance(buckets, end) as u64,
            },
        )
    }
}

/// What the detector remembers between windows.
#[derive(Clone, Copy, Debug, PartialEq, Eq)]
pub struct StackState {
    pub last_time: u64,
    pub last_side: Option<Side>,
}

impl StackState {
    /// A detector that has announced nothing.
    pub open spec fn initial() -> StackState {
        StackState { last_time: 0, last_side: None }
    }

    /// Is the stack announced at time `now`? It is where the cooldown has
    /// passed, the stack has the least number of levels, and its side is not
    /// the side announced last.
    pub open spec fn announces(self, now: u64, stack: Option<Stack>) -> bool {
        &&& spec_elapsed(self.last_time, now, STACK_COOLDOWN_MS)
        &&& stack.is_some()
        &&& stack.unwrap().level_count >= MIN_STACK_LEVELS
        &&& self.last_side != Some(stack.unwrap().side)
    }

    /// The stacked imbalance announced at time `now`, if any.
    pub open spec fn spec_detect(self, now: u64, stack: Option<Stack>) -> Option<StackedImbalance> {
        if self.announces(now, stack) {
            Some(spec_announcement(now, stack.unwrap()))
        } else {
            None
        }
    }

    /// The detector after a window at time `now`.
    pub open spec fn spec_next(self, now: u64, stack: Option<Stack>) -> StackState {
        if self.announces(now, stack) {
            StackState { last_time: now, last_side: Some(stack.unwrap().side) }
        } else {
            self
        }
    }

    /// A detector that has announced nothing.
    pub fn new() -> (state: StackState)
        ensures
            state == StackState::initial(),
    {
        StackState { last_time: 0, last_side: None }
    }
}

/// A stack as subscribers see it: from the lower edge of its lowest bucket to
/// the upper edge of its highest.
pub open spec fn spec_announcement(now: u64, stack: Stack) -> StackedImbalance {
    StackedImbalance {
        timestamp: now,
        side: stack.side,
        level_count: stack.level_count,
        price_high: ((stack.high_point + 1) * PRICE_SCALE) as i64,
        price_low: (stack.low_point * PRICE_SCALE) as i64,
        total_imbalance: stack.total_imbalance,
    }
}

/// The price that a stacked imbalance is recorded at: the middle of its range.
pub open spec fn spec_mid_price(stacked: StackedImbalance) -> i64 {
    (stacked.price_low + (stacked.price_high - stacked.price_low) / 2) as i64
}

proof fn lemma_sum_prefix(levels: Seq<VolumeProfileLevel>, i: int)
    requires
        0 <= i <= levels.len(),
    ensures
        sum_buy(levels.take(i)) <= sum_buy(levels),
        sum_sell(levels.take(i)) <= sum_sell(levels),
    decreases levels.len() - i,
{
    if i == levels.len() {
        assert(levels.take(i) =~= levels);
    } else {
        lemma_sum_prefix(levels, i + 1);
        assert(levels.take(i + 1).drop_last() =~= levels.take(i));
    }
}

proof fn lemma_buckets_prefix(buckets: Seq<PointBucket>, i: int)
    requires
        0 <= i <= buckets.len(),
    ensures
        buckets_buy(buckets.take(i)) <= buckets_buy(buckets),
        buckets_sell(buckets.take(i)) <= buckets_sell(buckets),
    decreases buckets.len() - i,
{
    if i == buckets.len() {
        assert(buckets.take(i) =~= buckets);
    } else {
        lemma_buckets_prefix(buckets, i + 1);
        assert(buckets.take(i + 1).drop_last() =~= buckets.take(i));
    }
}

proof fn lemma_streak_bounds(buckets: Seq<PointBucket>, k: int)
    requires
        -1 <= k < buckets.len(),
    ensures
        streak_len(buckets, k) <= k + 1,
        streak_imbalance(buckets, k) <= buckets_buy(buckets.take(k + 1)) + buckets_sell(
            buckets.take(k + 1),
        ),
    decreases k + 1,
{
    if k >= 0 {
        lemma_streak_bounds(buckets, k - 1);
        assert(buckets.take(k + 1).drop_last() =~= buckets.take(k));
    }
}

/// The one-point buckets of a profile's levels, from the lowest up.
pub fn point_buckets(profile: &VolumeProfile) -> (buckets: Vec<PointBucket>)
    requires
        profile@.wf(),
    ensures
        buckets@ == spec_point_buckets(profile@.levels),
        buckets_ok(buckets@),
{
    let ghost levels = profile@.levels;
    let mut buckets: Vec<PointBucket> = Vec::new();
    let mut i: usize = 0;
    let n = profile.len();
    while i < n
        invariant
            0 <= i <= n,
            n == levels.len(),
            levels == profile@.levels,
            profile@.wf(),
            buckets@ == spec_point_buckets(levels.take(i as int)),
            buckets_buy(buckets@) == sum_buy(levels.take(i as int)),
            buckets_sell(buckets@) == sum_sell(levels.take(i as int)),
            forall|k: int| 0 <= k < buckets@.len() ==> 0 <= (#[trigger] buckets@[k]).point <= MAX_POINT,
            forall|k: int, l: int|
                0 <= k < l < buckets@.len() ==> (#[trigger] buckets@[k]).point
                    < (#[trigger] buckets@[l]).point,
            i > 0 ==> buckets@.len() > 0 && buckets@.last().point == spec_point_floor(
                levels[i - 1].price as int,
            ),
            i == 0 ==> buckets@.len() == 0,
        decreases n - i,
    {
        let level = profile.level(i);
        proof {
            assert(levels.take(i + 1).drop_last() =~= levels.take(i as int));
            lemma_sum_prefix(levels, i + 1);
            assert(crate::profile::level_ok(levels[i as int]));
            if i > 0 {
                assert(levels[i - 1].price < levels[i as int].price);
            }
        }
        let point = point_floor(level.price);
        let last = buckets.len();
        if last > 0 && buckets[last - 1].point == point {
            let old_bucket = buckets[last - 1];
            let ghost before = buckets@;
            assert(before.drop_last().push(before.last()) =~= before);
            let grown = PointBucket {
                point,
                buy_volume: old_bucket.buy_volume + level.buy_volume,
                sell_volume: old_bucket.sell_volume + level.sell_volume,
            };
            buckets[last - 1] = grown;
            proof {
                assert(buckets@.drop_last() =~= before.drop_last());
            }
        } else {
            buckets.push(
                PointBucket { point, buy_volume: level.buy_volume, sell_volume: level.sell_volume },
            );
            proof {
                let ghost pushed = buckets@;
                assert(pushed.drop_last() =~= spec_point_buckets(levels.take(i as int)));
            }
        }
        i += 1;
    }
    proof {
        assert(levels.take(i as int) =~= levels);
    }
    buckets
}

/// The side that dominates a bucket.
pub fn bucket_side(bucket: &PointBucket) -> (side: Option<Side>)
    ensures
        side == spec_bucket_side(*bucket),
{
    let buy = bucket.buy_volume as u128;
    let total = buy + bucket.sell_volume as u128;
    if total < MIN_LEVEL_VOLUME as u128 {
        None
    } else if buy * 10 >= total * 7 {
        Some(Side::Buy)
    } else if buy * 10 <= total * 3 {
        Some(Side::Sell)
    } else {
        None
    }
}

/// The longest run of dominated buckets one point apart, the lowest of the
/// longest.
pub fn best_stack(buckets: &Vec<PointBucket>) -> (stack: Option<Stack>)
    requires
        buckets_ok(buckets@),
    ensures
        stack == spec_best_stack(buckets@),
{
    let n = buckets.len();
    if n == 0 {
        return None;
    }
    let mut best: usize = 0;
    let mut best_len: usize = 0;
    let mut best_gap: u64 = 0;
    let mut run_len: usize = 0;
    let mut run_gap: u64 = 0;
    let mut prev: Option<Side> = None;
    let mut i: usize = 0;
    while i < n
        invariant
            0 <= i <= n,
            n == buckets@.len(),
            n > 0,
            buckets_ok(buckets@),
            i > 0 ==> run_len == streak_len(buckets@, i - 1),
            i > 0 ==> run_gap == streak_imbalance(buckets@, i - 1),
            i > 0 ==> prev == spec_bucket_side(buckets@[i - 1]),
            best == best_end(buckets@, i as int),
            i > 0 ==> best < i,
            i > 0 ==> best_len == streak_len(buckets@, best as int),
            i > 0 ==> best_gap == streak_imbalance(buckets@, best as int),
            i == 0 ==> best == 0,
        decreases n - i,
    {
        let bucket = buckets[i];
        let side = bucket_side(&bucket);
        proof {
            lemma_streak_bounds(buckets@, i as int);
            lemma_buckets_prefix(buckets@, i + 1);
        }
        match side {
            None => {
                run_len = 0;
                run_gap = 0;
            },
            Some(s) => {
                let gap: u64 = if bucket.buy_volume >= bucket.sell_volume {
                    bucket.buy_volume - bucket.sell_volume
                } else {
                    bucket.sell_volume - bucket.buy_volume
                };
                let same = match prev {
                    Some(p) => p == s,
                    None => false,
                };
                if i >= 1 && same && bucket.point == buckets[i - 1].point + 1 {
                    run_len = run_len + 1;
                    run_gap = run_gap + gap;
                } else {
                    run_len = 1;
                    run_gap = gap;
                }
            },
        }
        if i == 0 || run_len > best_len {
            best = i;
            best_len = run_len;
            best_gap = run_gap;
        }
        prev = side;
        i += 1;
    }
    if best_len == 0 {
        None
    } else {
        proof {
            lemma_streak_bounds(buckets@, best as int);
        }
        match bucket_side(&buckets[best]) {
            Some(side) => Some(
                Stack {
                    side,
                    level_count: best_len as u64,
                    low_point: buckets[best + 1 - best_len].point,
                    high_point: buckets[best].point,
                    total_imbalance: best_gap,
                },
            ),
            None => None,
        }
    }
}

/// A stack as subscribers see it.
pub fn announcement(now: u64, stack: &Stack) -> (stacked: StackedImbalance)
    requires
        0 <= stack.low_point <= MAX_POINT,
        0 <= stack.high_point <= MAX_POINT,
    ensures
        stacked == spec_announcement(now, *stack),
{
    StackedImbalance {
        timestamp: now,
        side: stack.side,
        level_count: stack.level_count,
        price_high: (stack.high_point + 1) * PRICE_SCALE,
        price_low: stack.low_point * PRICE_SCALE,
        total_imbalance: stack.total_imbalance,
    }
}

/// The price that a stacked imbalance is recorded at.
pub fn mid_price(stacked: &StackedImbalance) -> (price: i64)
    requires
        0 <= stacked.price_low <= stacked.price_high,
    ensures
        price == spec_mid_price(*stacked),
{
    stacked.price_low + (stacked.price_high - stacked.price_low) / 2
}

/// Looks for a stacked imbalance in the profile at the end of a window.
pub fn detect_stacked_imbalances(state: &mut StackState, profile: &VolumeProfile, now: u64) -> (stacked:
    Option<StackedImbalance>)
    requires
        profile@.wf(),
    ensures
        stacked == old(state).spec_detect(now, spec_best_stack(spec_point_buckets(profile@.levels))),
        *final(state) == old(state).spec_next(
            now,
            spec_best_stack(spec_point_buckets(profile@.levels)),
        ),
        stacked.is_some() ==> 0 <= stacked.unwrap().price_low <= stacked.unwrap().price_high
            <= (MAX_POINT + 1) * PRICE_SCALE,
{
    if !elapsed(state.last_time, now, STACK_COOLDOWN_MS) {
        return None;
    }
    let buckets = point_buckets(profile);
    let stack = best_stack(&buckets);
    match stack {
        Some(s) => {
            let fresh = match state.last_side {
                Some(side) => side != s.side,
                None => true,
            };
            if s.level_count >= MIN_STACK_LEVELS && fresh {
                proof {
                    lemma_best_stack_in_range(buckets@);
                    assert(s.low_point * PRICE_SCALE <= (s.high_point + 1) * PRICE_SCALE
                        <= (MAX_POINT + 1) * PRICE_SCALE) by (nonlinear_arith)
                        requires
                            0 <= s.low_point <= s.high_point <= MAX_POINT,
                    ;
                }
                state.last_time = now;
                state.last_side = Some(s.side);
                Some(announcement(now, &s))
            } else {
                None
            }
        },
        None => None,
    }
}

proof fn lemma_best_end_in_range(buckets: Seq<PointBucket>, n: int)
    requires
        1 <= n <= buckets.len(),
    ensures
        0 <= best_end(buckets, n) < n,
        forall|k: int|
            0 <= k < n ==> #[trigger] streak_len(buckets, k) <= streak_len(
                buckets,
                best_end(buckets, n),
            ),
        forall|k: int|
            0 <= k < best_end(buckets, n) ==> #[trigger] streak_len(buckets, k) < streak_len(
                buckets,
                best_end(buckets, n),
            ),
    decreases n,
{
    if n > 1 {
        lemma_best_end_in_range(buckets, n - 1);
    }
}

proof fn lemma_best_stack_in_range(buckets: Seq<PointBucket>)
    requires
        buckets_ok(buckets),
        spec_best_stack(buckets).is_some(),
    ensures
        0 <= spec_best_stack(buckets).unwrap().low_point <= spec_best_stack(
            buckets,
        ).unwrap().high_point <= MAX_POINT,
{
    let n = buckets.len() as int;
    if n > 0 {
        lemma_best_end_in_range(buckets, n);
        let end = best_end(buckets, n);
        lemma_streak_bounds(buckets, end);
        let low = end - streak_len(buckets, end) + 1;
        if low < end {
            assert(buckets[low].point < buckets[end].point);
        }
    }
}

/// Every bucket of the run that ends at index `end` is dominated by the side
/// that dominates the last, and each is one point above the one before.
pub proof fn streak_is_a_run(buckets: Seq<PointBucket>, end: int, k: int)
    requires
        0 <= end < buckets.len(),
        end - streak_len(buckets, end) < k <= end,
    ensures
        0 <= k,
        spec_bucket_side(buckets[k]) == spec_bucket_side(buckets[end]),
        spec_bucket_side(buckets[k]).is_some(),
        buckets[k].point == buckets[end].point - (end - k),
    decreases end,
{
    lemma_streak_bounds(buckets, end);
    if k < end {
        streak_is_a_run(buckets, end - 1, k);
    }
}

/// No run is longer than the best stack, and none that ends below it is as
/// long.
pub proof fn best_stack_is_the_longest(buckets: Seq<PointBucket>, k: int)
    requires
        0 <= k < buckets.len(),
    ensures
        streak_len(buckets, k) <= streak_len(buckets, best_end(buckets, buckets.len() as int)),
        k < best_end(buckets, buckets.len() as int) ==> streak_len(buckets, k) < streak_len(
            buckets,
            best_end(buckets, buckets.len() as int),
        ),
{
    lemma_best_end_in_range(buckets, buckets.len() as int);
}

/// After a stacked imbalance at `now` none is announced before the cooldown
/// has passed, and none for the same side next.
pub proof fn stacks_keep_their_distance(
    state: StackState,
    now: u64,
    stack: Option<Stack>,
    later: u64,
    next: Option<Stack>,
)
    requires
        state.announces(now, stack),
        state.spec_next(now, stack).announces(later, next),
    ensures
        later - now >= STACK_COOLDOWN_MS,
        next.unwrap().side != stack.unwrap().side,
{
}

/// An empty profile has no buckets, and so no stack.
pub proof fn empty_profile_has_no_stack(state: StackState, now: u64)
    ensures
        spec_point_buckets(ProfileView::empty().levels).len() == 0,
        spec_best_stack(spec_point_buckets(ProfileView::empty().levels)).is_none(),
        state.spec_detect(now, spec_best_stack(spec_point_buckets(ProfileView::empty().levels)))
            .is_none(),
{
}

/// The detector after a run of windows, each a time and the best stack at it.
pub open spec fn after_windows(state: StackState, windows: Seq<(u64, Option<Stack>)>) -> StackState
    decreases windows.len(),
{
    if windows.len() == 0 {
        state
    } else {
        after_windows(state, windows.drop_last()).spec_next(windows.last().0, windows.last().1)
    }
}

/// Does no window of the run announce a stack?
pub open spec fn quiet(state: StackState, windows: Seq<(u64, Option<Stack>)>) -> bool
    decreases windows.len(),
{
    if windows.len() == 0 {
        true
    } else {
        quiet(state, windows.drop_last()) && !after_windows(state, windows.drop_last()).announces(
            windows.last().0,
            windows.last().1,
        )
    }
}

proof fn lemma_quiet_keeps_the_state(state: StackState, windows: Seq<(u64, Option<Stack>)>)
    requires
        quiet(state, windows),
    ensures
        after_windows(state, windows) == state,
    decreases windows.len(),
{
    if windows.len() > 0 {
        lemma_quiet_keeps_the_state(state, windows.drop_last());
    }
}

/// Between a stacked imbalance and the next, however many windows lie in
/// between, the cooldown has passed, and the next is for the other side.
pub proof fn any_two_stacks_keep_their_distance(
    state: StackState,
    now: u64,
    stack: Option<Stack>,
    between: Seq<(u64, Option<Stack>)>,
    later: u64,
    next: Option<Stack>,
)
    requires
        state.announces(now, stack),
        quiet(state.spec_next(now, stack), between),
        after_windows(state.spec_next(now, stack), between).announces(later, next),
    ensures
        later - now >= STACK_COOLDOWN_MS,
        next.unwrap().side != stack.unwrap().side,
{
    lemma_quiet_keeps_the_state(state.spec_next(now, stack), between);
}

} // verus!
