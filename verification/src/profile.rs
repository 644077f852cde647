//! The session volume profile: traded volume per quarter-point bucket, with
//! its point of control and value area.

use vstd::prelude::*;
use crate::price::{bucket_price, on_tick, spec_bucket_price, valid_price, HALF_POINT, TICK};
use crate::types::{Side, VolumeProfileLevel};

verus! {

/// Most volume a session can hold, both sides together.
pub const MAX_SESSION_VOLUME: u64 = 9_223_372_036_854_775_807;

/// A level as the profile keeps it: on a tick, not empty, its total the sum
/// of its sides.
pub open spec fn level_ok(level: VolumeProfileLevel) -> bool {
    &&& on_tick(level.price as int)
    &&& level.total_volume == level.buy_volume + level.sell_volume
    &&& level.total_volume >= 1
}

/// Strictly ascending by price.
pub open spec fn ascending(levels: Seq<VolumeProfileLevel>) -> bool {
    forall|i: int, j: int| 0 <= i < j < levels.len() ==> levels[i].price < levels[j].price
}

/// Buy volume of all levels together.
pub open spec fn sum_buy(levels: Seq<VolumeProfileLevel>) -> nat
    decreases levels.len(),
{
    if levels.len() == 0 {
        0
    } else {
        sum_buy(levels.drop_last()) + levels.last().buy_volume as nat
    }
}

/// Sell volume of all levels together.
pub open spec fn sum_sell(levels: Seq<VolumeProfileLevel>) -> nat
    decreases levels.len(),
{
    if levels.len() == 0 {
        0
    } else {
        sum_sell(levels.drop_last()) + levels.last().sell_volume as nat
    }
}

/// Total volume of the levels from index `lo` to index `hi`, both included.
pub open spec fn band_volume(levels: Seq<VolumeProfileLevel>, lo: int, hi: int) -> nat
    decreases hi - lo + 1,
{
    if hi < lo || lo < 0 || hi >= levels.len() {
        0
    } else {
        band_volume(levels, lo, hi - 1) + levels[hi].total_volume as nat
    }
}

/// The level that a first trade of `size` on `side` opens at `price`.
pub open spec fn fresh_level(price: i64, size: u32, side: Side) -> VolumeProfileLevel {
    VolumeProfileLevel {
        price,
        buy_volume: if side == Side::Buy { size as u64 } else { 0 },
        sell_volume: if side == Side::Sell { size as u64 } else { 0 },
        total_volume: size as u64,
    }
}

/// A level after one more trade of `size` on `side`.
pub open spec fn grown_level(level: VolumeProfileLevel, size: u32, side: Side) -> VolumeProfileLevel {
    VolumeProfileLevel {
        price: level.price,
        buy_volume: if side == Side::Buy { (level.buy_volume + size) as u64 } else { level.buy_volume },
        sell_volume: if side == Side::Sell { (level.sell_volume + size) as u64 } else { level.sell_volume },
        total_volume: (level.total_volume + size) as u64,
    }
}

/// Is `price` within half a point of `level`?
pub open spec fn near(price: int, level: int) -> bool {
    -(HALF_POINT as int) <= price - level <= HALF_POINT as int
}

/// The prices that the key-level tests look at.
#[derive(Clone, Copy, Debug, PartialEq, Eq)]
pub struct KeyLevels {
    pub poc: i64,
    pub vah: i64,
    pub val: i64,
}

/// Whether `price` lies within half a point of the point of control, of the
/// value area high, and of the value area low; false three times where there
/// are no such levels.
pub open spec fn spec_at_levels(marks: Option<KeyLevels>, price: int) -> (bool, bool, bool) {
    match marks {
        Some(k) => (near(price, k.poc as int), near(price, k.vah as int), near(price, k.val as int)),
        None => (false, false, false),
    }
}

/// Is `price` within half a point of any of the three levels?
pub open spec fn spec_at_any_level(marks: Option<KeyLevels>, price: int) -> bool {
    let (at_poc, at_vah, at_val) = spec_at_levels(marks, price);
    at_poc || at_vah || at_val
}

/// The profile as a value: its levels from the lowest price up, and the
/// session's volume by side.
pub struct ProfileView {
    pub levels: Seq<VolumeProfileLevel>,
    pub buy_volume: u64,
    pub sell_volume: u64,
}

impl ProfileView {
    /// A profile in order: levels ascending, each in order, and the session's volume
    /// by side the sum over the levels.
    pub open spec fn wf(self) -> bool {
        &&& ascending(self.levels)
        &&& forall|i: int| 0 <= i < self.levels.len() ==> level_ok(#[trigger] self.levels[i])
        &&& sum_buy(self.levels) == self.buy_volume
        &&& sum_sell(self.levels) == self.sell_volume
        &&& self.buy_volume + self.sell_volume <= MAX_SESSION_VOLUME
    }

    /// A profile without a trade.
    pub open spec fn empty() -> ProfileView {
        ProfileView { levels: Seq::empty(), buy_volume: 0, sell_volume: 0 }
    }

    /// Volume of the session, both sides together.
    pub open spec fn volume(self) -> int {
        self.buy_volume + self.sell_volume
    }

    /// Number of levels priced below `price`.
    pub open spec fn rank(self, price: int) -> int {
        rank_of(self.levels, price)
    }

    /// Index of the level at `price`, if the profile has one.
    pub open spec fn find(self, price: int) -> Option<int> {
        let i = self.rank(price);
        if i < self.levels.len() && self.levels[i].price == price {
            Some(i)
        } else {
            None
        }
    }

    /// Total volume traded in the bucket at `price`.
    pub open spec fn total_at(self, price: int) -> int {
        match self.find(price) {
            Some(i) => self.levels[i].total_volume as int,
            None => 0,
        }
    }

    /// The profile after a trade of `size` on `side` at `price`: the trade's
    /// bucket grows, or opens where it keeps the levels ascending.
    pub open spec fn update(self, price: i64, size: u32, side: Side) -> ProfileView {
        let bucket = spec_bucket_price(price as int) as i64;
        let i = self.rank(bucket as int);
        ProfileView {
            levels: if i < self.levels.len() && self.levels[i].price == bucket {
                self.levels.update(i, grown_level(self.levels[i], size, side))
            } else {
                self.levels.insert(i, fresh_level(bucket, size, side))
            },
            buy_volume: if side == Side::Buy { (self.buy_volume + size) as u64 } else { self.buy_volume },
            sell_volume: if side == Side::Sell { (self.sell_volume + size) as u64 } else { self.sell_volume },
        }
    }

    /// Index of the point of control: the first level of the largest total.
    pub open spec fn poc_index(self) -> int {
        first_max(self.levels)
    }

    /// Price of the point of control, absent on an empty profile.
    pub open spec fn poc(self) -> Option<i64> {
        if self.levels.len() == 0 {
            None
        } else {
            Some(self.levels[self.poc_index()].price)
        }
    }

    /// Volume of the bucket one tick above the level at index `hi`: nothing
    /// where no trade fell into that bucket.
    pub open spec fn above(self, hi: int) -> int {
        if hi + 1 < self.levels.len() && self.levels[hi + 1].price == self.levels[hi].price + TICK {
            self.levels[hi + 1].total_volume as int
        } else {
            0
        }
    }

    /// Volume of the bucket one tick below the level at index `lo`: nothing
    /// where no trade fell into that bucket.
    pub open spec fn below(self, lo: int) -> int {
        if lo >= 1 && self.levels[lo - 1].price + TICK == self.levels[lo].price {
            self.levels[lo - 1].total_volume as int
        } else {
            0
        }
    }

    /// Has a band that holds `included` reached 70 % of the session's volume?
    pub open spec fn covers(self, included: int) -> bool {
        included * 10 >= self.volume() * 7
    }

    /// Does the band of levels from index `lo` to index `hi` leave no level
    /// out?
    pub open spec fn spans(self, lo: int, hi: int) -> bool {
        lo <= 0 && hi >= self.levels.len() - 1
    }

    /// Does the band of levels from index `lo` to index `hi` grow upward next?
    /// It does where a level lies above it and the bucket one tick above holds
    /// as much as the bucket one tick below, or no level lies below. Two empty
    /// buckets tie, so across a gap the band reaches for the next level
    /// above while there is one.
    pub open spec fn grows_up(self, lo: int, hi: int) -> bool {
        hi + 1 < self.levels.len() && (self.above(hi) >= self.below(lo) || lo <= 0)
    }

    /// Grows the band of levels from index `lo` to index `hi`, which holds
    /// `included`, by one level at a time until it covers 70 % of the session's
    /// volume or leaves no level out. Each step takes the side whose
    /// neighbouring bucket is the larger, the upper on a tie.
    pub open spec fn expand(self, lo: int, hi: int, included: int) -> (int, int)
        decreases
            (if lo > 0 {
                lo
            } else {
                0
            }) + (if hi < self.levels.len() {
                self.levels.len() - hi
            } else {
                0
            }),
    {
        if self.covers(included) || self.spans(lo, hi) {
            (lo, hi)
        } else if self.grows_up(lo, hi) {
            self.expand(lo, hi + 1, included + self.levels[hi + 1].total_volume)
        } else {
            self.expand(lo - 1, hi, included + self.levels[lo - 1].total_volume)
        }
    }

    /// Indices of the value area's lowest and highest level.
    pub open spec fn value_band(self) -> (int, int) {
        let p = self.poc_index();
        self.expand(p, p, self.levels[p].total_volume as int)
    }

    /// Value area high and low, in that order; absent on an empty profile.
    pub open spec fn value_area(self) -> Option<(i64, i64)> {
        if self.levels.len() == 0 {
            None
        } else {
            let (lo, hi) = self.value_band();
            Some((self.levels[hi].price, self.levels[lo].price))
        }
    }

    /// The point of control and the value area together; absent on an empty
    /// profile.
    pub open spec fn landmarks(self) -> Option<KeyLevels> {
        match (self.poc(), self.value_area()) {
            (Some(poc), Some((vah, val))) => Some(KeyLevels { poc, vah, val }),
            _ => None,
        }
    }

    /// Whether `price` lies within half a point of the point of control, of
    /// the value area high, and of the value area low.
    pub open spec fn key_levels(self, price: int) -> (bool, bool, bool) {
        spec_at_levels(self.landmarks(), price)
    }

    /// Is `price` at any key level?
    pub open spec fn at_key_level(self, price: int) -> bool {
        spec_at_any_level(self.landmarks(), price)
    }
}

/// Number of levels priced below `price`.
pub open spec fn rank_of(levels: Seq<VolumeProfileLevel>, price: int) -> int
    decreases levels.len(),
{
    if levels.len() == 0 {
        0
    } else {
        rank_of(levels.drop_last(), price) + if levels.last().price < price { 1int } else { 0int }
    }
}

/// Index of the first level that no level exceeds in total volume.
pub open spec fn first_max(levels: Seq<VolumeProfileLevel>) -> int
    decreases levels.len(),
{
    if levels.len() <= 1 {
        0
    } else {
        let best = first_max(levels.drop_last());
        if levels.last().total_volume > levels[best].total_volume {
            levels.len() - 1
        } else {
            best
        }
    }
}

/// In ascending levels the rank of a price is the index where the levels
/// below it end.
pub proof fn lemma_rank_is_split(levels: Seq<VolumeProfileLevel>, price: int, i: int)
    requires
        ascending(levels),
        0 <= i <= levels.len(),
        forall|j: int| 0 <= j < i ==> levels[j].price < price,
        forall|j: int| i <= j < levels.len() ==> levels[j].price >= price,
    ensures
        rank_of(levels, price) == i,
    decreases levels.len(),
{
    if levels.len() > 0 {
        let rest = levels.drop_last();
        if i == levels.len() {
            lemma_rank_is_split(rest, price, i - 1);
        } else {
            lemma_rank_is_split(rest, price, i);
        }
    }
}

/// The rank of a price splits ascending levels into those below it and the
/// rest.
pub proof fn rank_splits_the_levels(levels: Seq<VolumeProfileLevel>, price: int)
    requires
        ascending(levels),
    ensures
        0 <= rank_of(levels, price) <= levels.len(),
        forall|j: int| 0 <= j < rank_of(levels, price) ==> levels[j].price < price,
        forall|j: int| rank_of(levels, price) <= j < levels.len() ==> levels[j].price >= price,
    decreases levels.len(),
{
    if levels.len() > 0 {
        let rest = levels.drop_last();
        rank_splits_the_levels(rest, price);
        let r = rank_of(rest, price);
        let n = levels.len() as int;
        if levels.last().price < price {
            if r < rest.len() {
                assert(rest[r].price >= price);
                assert(levels[r].price < levels[n - 1].price);
            }
            assert(r == n - 1);
            assert forall|j: int| 0 <= j < n implies levels[j].price < price by {
                if j < n - 1 {
                    assert(rest[j].price < price);
                }
            }
        } else {
            assert forall|j: int| 0 <= j < r implies levels[j].price < price by {
                assert(rest[j].price < price);
            }
            assert forall|j: int| r <= j < n implies levels[j].price >= price by {
                if j < n - 1 {
                    assert(rest[j].price >= price);
                }
            }
        }
    }
}

proof fn lemma_sum_insert(levels: Seq<VolumeProfileLevel>, i: int, level: VolumeProfileLevel)
    requires
        0 <= i <= levels.len(),
    ensures
        sum_buy(levels.insert(i, level)) == sum_buy(levels) + level.buy_volume,
        sum_sell(levels.insert(i, level)) == sum_sell(levels) + level.sell_volume,
    decreases levels.len(),
{
    let after = levels.insert(i, level);
    if i == levels.len() {
        assert(after.drop_last() =~= levels);
    } else {
        assert(after.drop_last() =~= levels.drop_last().insert(i, level));
        lemma_sum_insert(levels.drop_last(), i, level);
    }
}

proof fn lemma_sum_update(levels: Seq<VolumeProfileLevel>, i: int, level: VolumeProfileLevel)
    requires
        0 <= i < levels.len(),
    ensures
        sum_buy(levels.update(i, level)) == sum_buy(levels) - levels[i].buy_volume + level.buy_volume,
        sum_sell(levels.update(i, level)) == sum_sell(levels) - levels[i].sell_volume
            + level.sell_volume,
        levels[i].buy_volume <= sum_buy(levels),
        levels[i].sell_volume <= sum_sell(levels),
    decreases levels.len(),
{
    let after = levels.update(i, level);
    if i == levels.len() - 1 {
        assert(after.drop_last() =~= levels.drop_last());
    } else {
        assert(after.drop_last() =~= levels.drop_last().update(i, level));
        lemma_sum_update(levels.drop_last(), i, level);
    }
}

proof fn lemma_band_grows_down(levels: Seq<VolumeProfileLevel>, lo: int, hi: int)
    requires
        1 <= lo <= hi < levels.len(),
    ensures
        band_volume(levels, lo - 1, hi) == band_volume(levels, lo, hi) + levels[lo - 1].total_volume,
    decreases hi - lo,
{
    if lo < hi {
        lemma_band_grows_down(levels, lo, hi - 1);
    } else {
        assert(band_volume(levels, lo, lo - 1) == 0);
        assert(band_volume(levels, lo - 1, lo - 2) == 0);
        assert(band_volume(levels, lo - 1, lo - 1) == levels[lo - 1].total_volume);
    }
}

proof fn lemma_expand(profile: ProfileView, lo: int, hi: int, included: int)
    requires
        profile.wf(),
        0 <= lo <= hi < profile.levels.len(),
        included == band_volume(profile.levels, lo, hi),
    ensures
        ({
            let (l, h) = profile.expand(lo, hi, included);
            &&& 0 <= l <= lo
            &&& hi <= h < profile.levels.len()
            &&& profile.covers(band_volume(profile.levels, l, h) as int) || (l == 0 && h
                == profile.levels.len() - 1)
        }),
    decreases lo + profile.levels.len() - hi,
{
    if !profile.covers(included) && !profile.spans(lo, hi) {
        if profile.grows_up(lo, hi) {
            lemma_expand(profile, lo, hi + 1, included + profile.levels[hi + 1].total_volume);
        } else {
            lemma_band_grows_down(profile.levels, lo, hi);
            lemma_expand(profile, lo - 1, hi, included + profile.levels[lo - 1].total_volume);
        }
    }
}

/// Where every level is one tick from the next, the band grows toward the
/// larger of its two neighbours, and upward where they hold the same.
pub proof fn band_grows_toward_the_larger(profile: ProfileView, lo: int, hi: int)
    requires
        profile.wf(),
        1 <= lo <= hi < profile.levels.len() - 1,
        profile.levels[lo - 1].price + TICK == profile.levels[lo].price,
        profile.levels[hi + 1].price == profile.levels[hi].price + TICK,
    ensures
        profile.grows_up(lo, hi) <==> profile.levels[hi + 1].total_volume
            >= profile.levels[lo - 1].total_volume,
{
}

proof fn lemma_first_max(levels: Seq<VolumeProfileLevel>)
    requires
        levels.len() > 0,
    ensures
        0 <= first_max(levels) < levels.len(),
        forall|i: int|
            0 <= i < levels.len() ==> (#[trigger] levels[i]).total_volume
                <= levels[first_max(levels)].total_volume,
        forall|i: int|
            0 <= i < first_max(levels) ==> (#[trigger] levels[i]).total_volume
                < levels[first_max(levels)].total_volume,
    decreases levels.len(),
{
    if levels.len() > 1 {
        let rest = levels.drop_last();
        lemma_first_max(rest);
        let best = first_max(rest);
        assert forall|i: int| 0 <= i < levels.len() implies (#[trigger] levels[i]).total_volume
            <= levels[first_max(levels)].total_volume by {
            if i < rest.len() {
                assert(rest[i].total_volume <= rest[best].total_volume);
            }
        }
        assert forall|i: int| 0 <= i < first_max(levels) implies (#[trigger] levels[i]).total_volume
            < levels[first_max(levels)].total_volume by {
            if i < best {
                assert(rest[i].total_volume < rest[best].total_volume);
            } else if i < rest.len() {
                assert(rest[i].total_volume <= rest[best].total_volume);
            }
        }
    }
}

/// In ascending levels the level at a price, if there is one, stands at the
/// rank of the price.
pub proof fn lemma_find_is_unique(levels: Seq<VolumeProfileLevel>, k: int)
    requires
        ascending(levels),
        0 <= k < levels.len(),
    ensures
        rank_of(levels, levels[k].price as int) == k,
{
    assert forall|j: int| 0 <= j < k implies levels[j].price < levels[k].price by {}
    assert forall|j: int| k <= j < levels.len() implies levels[j].price >= levels[k].price by {
        if j > k {
            assert(levels[k].price < levels[j].price);
        }
    }
    lemma_rank_is_split(levels, levels[k].price as int, k);
}

/// A trade leaves a profile in order.
pub proof fn update_keeps_the_profile_in_order(profile: ProfileView, price: i64, size: u32, side: Side)
    requires
        profile.wf(),
        valid_price(price as int),
        size >= 1,
        profile.volume() + size <= MAX_SESSION_VOLUME,
    ensures
        profile.update(price, size, side).wf(),
{
    let levels = profile.levels;
    let bucket = spec_bucket_price(price as int) as i64;
    let i = profile.rank(bucket as int);
    rank_splits_the_levels(levels, bucket as int);
    let after = profile.update(price, size, side).levels;
    if i < levels.len() && levels[i].price == bucket {
        lemma_sum_update(levels, i, grown_level(levels[i], size, side));
        assert(level_ok(levels[i]));
        assert forall|k: int, l: int| 0 <= k < l < after.len() implies after[k].price
            < after[l].price by {
            assert(levels[k].price < levels[l].price);
        }
        assert forall|k: int| 0 <= k < after.len() implies level_ok(#[trigger] after[k]) by {
            assert(level_ok(levels[k]));
        }
    } else {
        lemma_sum_insert(levels, i, fresh_level(bucket, size, side));
        assert forall|k: int, l: int| 0 <= k < l < after.len() implies after[k].price
            < after[l].price by {
            if l < i {
                assert(levels[k].price < levels[l].price);
            } else if l == i {
                assert(levels[k].price < bucket);
            } else if k < i {
                assert(levels[k].price < bucket);
                assert(levels[l - 1].price >= bucket);
            } else if k == i {
                assert(levels[l - 1].price >= bucket);
                if i < levels.len() {
                    assert(levels[i].price >= bucket);
                    if i < l - 1 {
                        assert(levels[i].price < levels[l - 1].price);
                    }
                }
            } else {
                assert(levels[k - 1].price < levels[l - 1].price);
            }
        }
        assert forall|k: int| 0 <= k < after.len() implies level_ok(#[trigger] after[k]) by {
            if k < i {
                assert(level_ok(levels[k]));
            } else if k > i {
                assert(level_ok(levels[k - 1]));
            }
        }
    }
}

/// A trade adds its size to the total of its bucket and leaves the total of
/// every other bucket as it was.
pub proof fn update_grows_one_bucket(
    profile: ProfileView,
    price: i64,
    size: u32,
    side: Side,
    at: int,
)
    requires
        profile.wf(),
        valid_price(price as int),
        size >= 1,
        profile.volume() + size <= MAX_SESSION_VOLUME,
    ensures
        profile.update(price, size, side).total_at(at) == profile.total_at(at) + if at
            == spec_bucket_price(price as int) {
            size as int
        } else {
            0
        },
{
    let levels = profile.levels;
    let bucket = spec_bucket_price(price as int) as i64;
    let i = profile.rank(bucket as int);
    let updated = profile.update(price, size, side);
    let after = updated.levels;
    update_keeps_the_profile_in_order(profile, price, size, side);
    rank_splits_the_levels(levels, bucket as int);
    rank_splits_the_levels(levels, at);
    rank_splits_the_levels(after, at);
    let j = profile.rank(at);
    let k = updated.rank(at);
    if i < levels.len() && levels[i].price == bucket {
        lemma_sum_update(levels, i, grown_level(levels[i], size, side));
        assert(level_ok(levels[i]));
        // The prices stand where they stood.
        if j < levels.len() && levels[j].price == at {
            lemma_find_is_unique(after, j);
        } else if k < after.len() && after[k].price == at {
            lemma_find_is_unique(levels, k);
        }
    } else {
        if j < levels.len() && levels[j].price == at {
            // The level has moved up by one where the new level stands before it.
            if j < i {
                lemma_find_is_unique(after, j);
            } else {
                lemma_find_is_unique(after, j + 1);
            }
        } else if at == bucket {
            lemma_find_is_unique(after, i);
        } else if k < after.len() && after[k].price == at {
            if k < i {
                lemma_find_is_unique(levels, k);
            } else {
                lemma_find_is_unique(levels, k - 1);
            }
        }
    }
}

/// Every level's total is the sum of its two sides, and no level is empty.
pub proof fn levels_balance(profile: ProfileView, i: int)
    requires
        profile.wf(),
        0 <= i < profile.levels.len(),
    ensures
        profile.levels[i].total_volume == profile.levels[i].buy_volume + profile.levels[i].sell_volume,
        profile.levels[i].total_volume >= 1,
{
}

/// No level holds more than the point of control, and none below it holds as
/// much.
pub proof fn poc_holds_the_most(profile: ProfileView, i: int)
    requires
        0 <= i < profile.levels.len(),
    ensures
        0 <= profile.poc_index() < profile.levels.len(),
        profile.levels[i].total_volume <= profile.levels[profile.poc_index()].total_volume,
        i < profile.poc_index() ==> profile.levels[i].total_volume
            < profile.levels[profile.poc_index()].total_volume,
{
    lemma_first_max(profile.levels);
}

/// The value area brackets the point of control, and it holds 70 % of the
/// session's volume or every level of the profile.
pub proof fn value_area_brackets_poc(profile: ProfileView)
    requires
        profile.wf(),
        profile.levels.len() > 0,
    ensures
        ({
            let (lo, hi) = profile.value_band();
            let (vah, val) = profile.value_area().unwrap();
            let poc = profile.poc().unwrap();
            &&& 0 <= lo <= profile.poc_index() <= hi < profile.levels.len()
            &&& val == profile.levels[lo].price
            &&& vah == profile.levels[hi].price
            &&& val <= poc <= vah
            &&& profile.covers(band_volume(profile.levels, lo, hi) as int) || (lo == 0 && hi
                == profile.levels.len() - 1)
        }),
{
    lemma_first_max(profile.levels);
    let p = profile.poc_index();
    assert(band_volume(profile.levels, p, p - 1) == 0);
    assert(band_volume(profile.levels, p, p) == profile.levels[p].total_volume);
    lemma_expand(profile, p, p, profile.levels[p].total_volume as int);
}

/// An empty profile has no point of control and no value area, and no price
/// is at a key level of it.
pub proof fn empty_profile_has_no_key_levels(price: int)
    ensures
        ProfileView::empty().poc().is_none(),
        ProfileView::empty().value_area().is_none(),
        ProfileView::empty().key_levels(price) == (false, false, false),
        !ProfileView::empty().at_key_level(price),
{
}

/// The session volume profile.
pub struct VolumeProfile {
    levels: Vec<VolumeProfileLevel>,
    buy_volume: u64,
    sell_volume: u64,
}

impl View for VolumeProfile {
    type V = ProfileView;

    closed spec fn view(&self) -> ProfileView {
        ProfileView {
            levels: self.levels@,
            buy_volume: self.buy_volume,
            sell_volume: self.sell_volume,
        }
    }
}

impl VolumeProfile {
    /// A profile without a trade.
    pub fn new() -> (profile: VolumeProfile)
        ensures
            profile@ == ProfileView::empty(),
            profile@.wf(),
    {
        VolumeProfile { levels: Vec::new(), buy_volume: 0, sell_volume: 0 }
    }

    /// Adds a trade of `size` on `side` at `price` to its quarter-point bucket.
    pub fn update(&mut self, price: i64, size: u32, side: Side)
        requires
            old(self)@.wf(),
            valid_price(price as int),
            size >= 1,
            old(self)@.volume() + size <= MAX_SESSION_VOLUME,
        ensures
            final(self)@ == old(self)@.update(price, size, side),
            final(self)@.wf(),
    {
        let bucket = bucket_price(price);
        let ghost before = self.levels@;
        let mut i: usize = 0;
        while i < self.levels.len() && self.levels[i].price < bucket
            invariant
                0 <= i <= self.levels.len(),
                self.levels@ == before,
                forall|j: int| 0 <= j < i ==> before[j].price < bucket,
            decreases self.levels.len() - i,
        {
            i += 1;
        }
        proof {
            assert forall|j: int| i <= j < before.len() implies before[j].price >= bucket by {
                if j > i {
                    assert(before[i as int].price < before[j].price);
                }
            }
            lemma_rank_is_split(before, bucket as int, i as int);
        }
        let buy: u64 = match side {
            Side::Buy => size as u64,
            Side::Sell => 0,
        };
        let sell: u64 = match side {
            Side::Buy => 0,
            Side::Sell => size as u64,
        };
        if i < self.levels.len() && self.levels[i].price == bucket {
            let level = self.levels[i];
            proof {
                lemma_sum_update(before, i as int, grown_level(level, size, side));
            }
            self.levels[i] = VolumeProfileLevel {
                price: level.price,
                buy_volume: level.buy_volume + buy,
                sell_volume: level.sell_volume + sell,
                total_volume: level.total_volume + size as u64,
            };
        } else {
            proof {
                lemma_sum_insert(before, i as int, fresh_level(bucket, size, side));
            }
            self.levels.insert(
                i,
                VolumeProfileLevel { price: bucket, buy_volume: buy, sell_volume: sell, total_volume: size as u64 },
            );
        }
        self.buy_volume = self.buy_volume + buy;
        self.sell_volume = self.sell_volume + sell;
    }

    /// Price of the point of control: the bucket of the largest total volume,
    /// the lowest of them on a tie.
    pub fn get_poc(&self) -> (poc: Option<i64>)
        ensures
            poc == self@.poc(),
    {
        if self.levels.len() == 0 {
            None
        } else {
            let best = self.poc_position();
            Some(self.levels[best].price)
        }
    }

    fn poc_position(&self) -> (best: usize)
        requires
            self.levels@.len() > 0,
        ensures
            best == self@.poc_index(),
            best < self.levels@.len(),
    {
        let mut best: usize = 0;
        let mut i: usize = 1;
        assert(self.levels@.take(1).len() == 1);
        while i < self.levels.len()
            invariant
                1 <= i <= self.levels.len(),
                best < i,
                best == first_max(self.levels@.take(i as int)),
            decreases self.levels.len() - i,
        {
            proof {
                let next = self.levels@.take(i + 1);
                assert(next.drop_last() =~= self.levels@.take(i as int));
            }
            if self.levels[i].total_volume > self.levels[best].total_volume {
                best = i;
            }
            i += 1;
        }
        assert(self.levels@.take(i as int) =~= self.levels@);
        best
    }

    /// Value area high and low: the band of levels grown outward from the
    /// point of control until it holds 70 % of the session's volume, or every
    /// level.
    pub fn get_value_area(&self) -> (area: Option<(i64, i64)>)
        requires
            self@.wf(),
        ensures
            area == self@.value_area(),
    {
        if self.levels.len() == 0 {
            return None;
        }
        let poc = self.poc_position();
        let total: u64 = self.buy_volume + self.sell_volume;
        let mut lo: usize = poc;
        let mut hi: usize = poc;
        let mut included: u64 = self.levels[poc].total_volume;
        proof {
            lemma_sum_update(self.levels@, poc as int, self.levels@[poc as int]);
        }
        loop
            invariant
                self@.wf(),
                total == self@.volume(),
                0 <= lo <= hi < self.levels.len(),
                included <= total * 2,
                self@.expand(lo as int, hi as int, included as int) == self@.value_band(),
            ensures
                (lo as int, hi as int) == self@.value_band(),
            decreases lo + self.levels.len() - hi,
        {
            if included as u128 * 10 >= total as u128 * 7 || (lo == 0 && hi + 1 == self.levels.len()) {
                break;
            }
            let above: u64 = if hi + 1 < self.levels.len() && self.levels[hi + 1].price
                == self.levels[hi].price + TICK {
                self.levels[hi + 1].total_volume
            } else {
                0
            };
            let below: u64 = if lo >= 1 && self.levels[lo - 1].price + TICK
                == self.levels[lo].price {
                self.levels[lo - 1].total_volume
            } else {
                0
            };
            if hi + 1 < self.levels.len() && (above >= below || lo == 0) {
                proof {
                    lemma_sum_update(self.levels@, hi + 1, self.levels@[hi + 1]);
                }
                hi = hi + 1;
                included = included + self.levels[hi].total_volume;
            } else {
                proof {
                    lemma_sum_update(self.levels@, lo - 1, self.levels@[lo - 1]);
                }
                lo = lo - 1;
                included = included + self.levels[lo].total_volume;
            }
        }
        Some((self.levels[hi].price, self.levels[lo].price))
    }

    /// The point of control and the value area together; absent on an empty
    /// profile.
    pub fn landmarks(&self) -> (marks: Option<KeyLevels>)
        requires
            self@.wf(),
        ensures
            marks == self@.landmarks(),
    {
        match (self.get_poc(), self.get_value_area()) {
            (Some(poc), Some((vah, val))) => Some(KeyLevels { poc, vah, val }),
            _ => None,
        }
    }

    /// Whether `price` lies within half a point of the point of control, of
    /// the value area high, and of the value area low. All three are false on
    /// an empty profile.
    pub fn is_at_key_level(&self, price: i64) -> (at: (bool, bool, bool))
        requires
            self@.wf(),
        ensures
            at == self@.key_levels(price as int),
    {
        at_levels(&self.landmarks(), price)
    }

    /// The levels, from the lowest price up.
    pub fn levels(&self) -> (levels: Vec<VolumeProfileLevel>)
        ensures
            levels@ == self@.levels,
    {
        let mut out: Vec<VolumeProfileLevel> = Vec::new();
        let mut i: usize = 0;
        while i < self.levels.len()
            invariant
                0 <= i <= self.levels.len(),
                out@ == self.levels@.take(i as int),
            decreases self.levels.len() - i,
        {
            out.push(self.levels[i]);
            proof {
                assert(self.levels@.take(i + 1) =~= self.levels@.take(i as int).push(self.levels@[i as int]));
            }
            i += 1;
        }
        assert(self.levels@.take(i as int) =~= self.levels@);
        out
    }

    /// Number of levels.
    pub fn len(&self) -> (n: usize)
        ensures
            n == self@.levels.len(),
    {
        self.levels.len()
    }

    /// The level at index `i`, counted from the lowest price.
    pub fn level(&self, i: usize) -> (level: VolumeProfileLevel)
        requires
            i < self@.levels.len(),
        ensures
            level == self@.levels[i as int],
    {
        self.levels[i]
    }

    /// Buy volume of the session.
    pub fn buy_volume(&self) -> (volume: u64)
        ensures
            volume == self@.buy_volume,
    {
        self.buy_volume
    }

    /// Sell volume of the session.
    pub fn sell_volume(&self) -> (volume: u64)
        ensures
            volume == self@.sell_volume,
    {
        self.sell_volume
    }
}

/// Tests `price` against levels found earlier.
pub fn at_levels(marks: &Option<KeyLevels>, price: i64) -> (at: (bool, bool, bool))
    ensures
        at == spec_at_levels(*marks, price as int),
{
    match marks {
        Some(k) => (is_near(price, k.poc), is_near(price, k.vah), is_near(price, k.val)),
        None => (false, false, false),
    }
}

/// Is `price` within half a point of `level`?
pub fn is_near(price: i64, level: i64) -> (yes: bool)
    ensures
        yes == near(price as int, level as int),
{
    let gap: i128 = price as i128 - level as i128;
    -(HALF_POINT as i128) <= gap && gap <= HALF_POINT as i128
}

} // verus!
