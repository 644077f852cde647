//! Impulse legs: short, fast, one-sided moves of thirty points or more in
//! one-minute bars, scored on five counts.

use vstd::prelude::*;
use crate::bars::Bar;
use crate::levels::total_volume;
use crate::trades::{day_of, spec_day_of, ImpulseDirection};

verus! {

/// Least size of an impulse move: thirty points.
pub const MIN_IMPULSE_MOVE: i64 = 30_000_000_000;

/// Most candles of a fast move.
pub const MAX_FAST_CANDLES: usize = 5;

/// Fewest candles of a move.
pub const MIN_CANDLES: usize = 3;

/// Least score of a leg that is kept, out of five.
pub const MIN_IMPULSE_SCORE: u8 = 4;

/// Number of bars that a swing looks back over.
pub const SWING_LOOKBACK: usize = 10;

/// The high of a stretch that holds no bar.
pub const NO_SWING_HIGH: i64 = -9_223_372_036_854_775_808;

/// The low of a stretch that holds no bar.
pub const NO_SWING_LOW: i64 = 9_223_372_036_854_775_807;

/// An impulse leg with its score. Times are in nanoseconds since the epoch,
/// the date in days since it.
#[derive(Clone, Debug, PartialEq, Eq)]
pub struct ImpulseLeg {
    pub start_time: i64,
    pub end_time: i64,
    pub start_price: i64,
    pub end_price: i64,
    pub direction: ImpulseDirection,
    pub symbol: String,
    pub date: i64,
    pub score_total: u8,
    pub broke_swing: bool,
    pub was_fast: bool,
    pub uniform_candles: bool,
    pub volume_increased: bool,
    pub sufficient_size: bool,
    pub num_candles: usize,
    pub total_volume: u64,
    pub avg_volume_per_bar: u64,
}

/// Highest high of the bars from index `from` up to, not including, `to`.
pub open spec fn window_high(bars: Seq<Bar>, from: int, to: int) -> i64
    decreases to - from,
{
    if to <= from || to > bars.len() || from < 0 {
        NO_SWING_HIGH
    } else {
        let rest = window_high(bars, from, to - 1);
        if bars[to - 1].high > rest {
            bars[to - 1].high
        } else {
            rest
        }
    }
}

/// Lowest low of the bars from index `from` up to, not including, `to`.
pub open spec fn window_low(bars: Seq<Bar>, from: int, to: int) -> i64
    decreases to - from,
{
    if to <= from || to > bars.len() || from < 0 {
        NO_SWING_LOW
    } else {
        let rest = window_low(bars, from, to - 1);
        if bars[to - 1].low < rest {
            bars[to - 1].low
        } else {
            rest
        }
    }
}

/// Volume of the bars from index `from` up to, not including, `to`.
pub open spec fn window_volume(bars: Seq<Bar>, from: int, to: int) -> nat
    decreases to - from,
{
    if to <= from || to > bars.len() || from < 0 {
        0
    } else {
        window_volume(bars, from, to - 1) + bars[to - 1].volume as nat
    }
}

/// The swing high before the bar at index `i`: the highest high of the
/// `lookback` bars before it, and `NO_SWING_HIGH` where there are not as
/// many.
pub open spec fn swing_high_at(bars: Seq<Bar>, i: int, lookback: int) -> i64 {
    if lookback <= i < bars.len() {
        window_high(bars, i - lookback, i)
    } else {
        NO_SWING_HIGH
    }
}

/// The swing low before the bar at index `i`.
pub open spec fn swing_low_at(bars: Seq<Bar>, i: int, lookback: int) -> i64 {
    if lookback <= i < bars.len() {
        window_low(bars, i - lookback, i)
    } else {
        NO_SWING_LOW
    }
}

/// Did a move that ends at `end_price` break the swing before the bar at
/// index `idx`? An up move breaks it above the swing high, a down move below
/// the swing low; where there is no swing, nothing is broken.
pub open spec fn spec_broke_swing(
    direction: ImpulseDirection,
    end_price: i64,
    swing_highs: Seq<i64>,
    swing_lows: Seq<i64>,
    idx: int,
) -> bool {
    match direction {
        ImpulseDirection::Up => 0 <= idx < swing_highs.len() && swing_highs[idx] != NO_SWING_HIGH
            && end_price > swing_highs[idx],
        ImpulseDirection::Down => 0 <= idx < swing_lows.len() && swing_lows[idx] != NO_SWING_LOW
            && end_price < swing_lows[idx],
    }
}

/// Does the bar go the way of `direction`? Up is a close above the open,
/// down anything else.
pub open spec fn goes_with(bar: Bar, direction: ImpulseDirection) -> bool {
    match direction {
        ImpulseDirection::Up => bar.spec_is_bullish(),
        ImpulseDirection::Down => !bar.spec_is_bullish(),
    }
}

/// Number of bars from index `from` up to `to` that go the way of
/// `direction`.
pub open spec fn matching(bars: Seq<Bar>, from: int, to: int, direction: ImpulseDirection) -> nat
    decreases to - from,
{
    if to <= from || to > bars.len() || from < 0 {
        0
    } else {
        matching(bars, from, to - 1, direction) + if goes_with(bars[to - 1], direction) {
            1nat
        } else {
            0nat
        }
    }
}

/// Do the bodies of two bars overlap?
pub open spec fn bodies_overlap(before: Bar, after: Bar) -> bool {
    after.spec_body_low() < before.spec_body_high() && after.spec_body_high()
        > before.spec_body_low()
}

/// Number of bars from index `from + 1` up to `to` whose body overlaps the
/// body of the bar before.
pub open spec fn overlaps(bars: Seq<Bar>, from: int, to: int) -> nat
    decreases to - from,
{
    if to <= from + 1 || to > bars.len() || from < 0 {
        0
    } else {
        overlaps(bars, from, to - 1) + if bodies_overlap(bars[to - 2], bars[to - 1]) {
            1nat
        } else {
            0nat
        }
    }
}

/// Are the candles from index `from` up to `to` uniform? Seven in ten or
/// more go the way of the move, and fewer than half overlap the one before.
pub open spec fn spec_uniform(bars: Seq<Bar>, from: int, to: int, direction: ImpulseDirection) -> bool {
    let n = to - from;
    &&& 0 <= from < to <= bars.len()
    &&& matching(bars, from, to, direction) * 10 >= 7 * n
    &&& overlaps(bars, from, to) * 2 < (if n - 1 >= 1 {
        n - 1
    } else {
        1
    })
}

/// Did the volume rise on the move from index `from` up to `to`? Its mean
/// volume per bar is more than 1.2 times that of the `SWING_LOOKBACK` bars
/// before it.
pub open spec fn spec_volume_increased(bars: Seq<Bar>, from: int, to: int) -> bool {
    &&& SWING_LOOKBACK <= from < to <= bars.len()
    &&& window_volume(bars, from, to) * 100 > window_volume(bars, from - SWING_LOOKBACK, from) * 12
        * (to - from)
}

/// Size of the move from the open of the bar at `start` to the close of the
/// last of `n` bars.
pub open spec fn move_size(bars: Seq<Bar>, start: int, n: int) -> int {
    let change = bars[start + n - 1].close - bars[start].open;
    if change >= 0 {
        change
    } else {
        -change
    }
}

/// One for a count that is met.
pub open spec fn point(met: bool) -> int {
    if met {
        1
    } else {
        0
    }
}

/// The leg of `n` bars that starts at index `start`, with its score.
pub open spec fn spec_leg(bars: Seq<Bar>, start: int, n: int, lookback: int) -> ImpulseLeg {
    let first = bars[start];
    let last = bars[start + n - 1];
    let direction = ImpulseDirection::spec_of_move(first.open, last.close);
    let broke = spec_broke_swing(
        direction,
        last.close,
        Seq::new(bars.len(), |i: int| swing_high_at(bars, i, lookback)),
        Seq::new(bars.len(), |i: int| swing_low_at(bars, i, lookback)),
        start,
    );
    let fast = n <= MAX_FAST_CANDLES;
    let uniform = spec_uniform(bars, start, start + n, direction);
    let louder = spec_volume_increased(bars, start, start + n);
    let sized = move_size(bars, start, n) >= MIN_IMPULSE_MOVE;
    ImpulseLeg {
        start_time: first.timestamp,
        end_time: last.timestamp,
        start_price: first.open,
        end_price: last.close,
        direction,
        symbol: first.symbol,
        date: spec_day_of(first.timestamp),
        score_total: (point(broke) + point(fast) + point(uniform) + point(louder) + point(sized)) as u8,
        broke_swing: broke,
        was_fast: fast,
        uniform_candles: uniform,
        volume_increased: louder,
        sufficient_size: sized,
        num_candles: n as usize,
        total_volume: window_volume(bars, start, start + n) as u64,
        avg_volume_per_bar: (window_volume(bars, start, start + n) as int / n) as u64,
    }
}

/// The leg that starts at index `start`, trying `n` candles and more: the
/// shortest of three to five candles, as far as the bars reach, that moves
/// the least size or more.
pub open spec fn spec_try_from(bars: Seq<Bar>, start: int, n: int, lookback: int) -> Option<ImpulseLeg>
    decreases MAX_FAST_CANDLES + 1 - n,
{
    if n > MAX_FAST_CANDLES || start + n > bars.len() || start < 0 || n < 1 {
        None
    } else if move_size(bars, start, n) >= MIN_IMPULSE_MOVE {
        Some(spec_leg(bars, start, n, lookback))
    } else {
        spec_try_from(bars, start, n + 1, lookback)
    }
}

/// The leg that starts at index `start`, if one does.
pub open spec fn spec_try_at(bars: Seq<Bar>, start: int) -> Option<ImpulseLeg> {
    spec_try_from(bars, start, MIN_CANDLES as int, SWING_LOOKBACK as int)
}

/// The legs found from index `i` on: a leg that scores enough is kept and
/// the search goes on behind it; otherwise it goes on at the next bar.
pub open spec fn legs_from(bars: Seq<Bar>, i: int) -> Seq<ImpulseLeg>
    decreases bars.len() - i,
{
    if i >= bars.len() || i < 0 {
        Seq::empty()
    } else {
        match spec_try_at(bars, i) {
            Some(leg) => if leg.score_total >= MIN_IMPULSE_SCORE && leg.num_candles >= 1 && i
                + leg.num_candles <= bars.len() {
                seq![leg] + legs_from(bars, i + leg.num_candles)
            } else {
                legs_from(bars, i + 1)
            },
            None => legs_from(bars, i + 1),
        }
    }
}

/// The impulse legs of the bars: none where there are fewer bars than a
/// swing and a move take.
pub open spec fn spec_impulse_legs(bars: Seq<Bar>) -> Seq<ImpulseLeg> {
    if bars.len() < SWING_LOOKBACK + MAX_FAST_CANDLES {
        Seq::empty()
    } else {
        legs_from(bars, SWING_LOOKBACK as int)
    }
}

proof fn lemma_window_within_total(bars: Seq<Bar>, from: int, to: int)
    requires
        0 <= from <= to <= bars.len(),
    ensures
        window_volume(bars, from, to) <= total_volume(bars),
    decreases bars.len(),
{
    if bars.len() > 0 {
        let rest = bars.drop_last();
        if to == bars.len() {
            if from < to {
                lemma_window_same(bars, rest, from, to - 1);
                lemma_window_within_total(rest, from, to - 1);
            }
        } else {
            lemma_window_same(bars, rest, from, to);
            lemma_window_within_total(rest, from, to);
        }
    }
}

proof fn lemma_window_same(bars: Seq<Bar>, rest: Seq<Bar>, from: int, to: int)
    requires
        0 <= from <= to <= rest.len(),
        rest.len() <= bars.len(),
        forall|k: int| 0 <= k < rest.len() ==> rest[k] == bars[k],
    ensures
        window_volume(bars, from, to) == window_volume(rest, from, to),
    decreases to - from,
{
    if from < to {
        lemma_window_same(bars, rest, from, to - 1);
    }
}

/// Highest high of the bars from index `from` up to `to`.
pub fn highest(bars: &Vec<Bar>, from: usize, to: usize) -> (high: i64)
    requires
        from <= to <= bars.len(),
    ensures
        high == window_high(bars@, from as int, to as int),
{
    let mut high: i64 = NO_SWING_HIGH;
    let mut k: usize = from;
    while k < to
        invariant
            from <= k <= to <= bars.len(),
            high == window_high(bars@, from as int, k as int),
        decreases to - k,
    {
        if bars[k].high > high {
            high = bars[k].high;
        }
        k += 1;
    }
    high
}

/// Lowest low of the bars from index `from` up to `to`.
pub fn lowest(bars: &Vec<Bar>, from: usize, to: usize) -> (low: i64)
    requires
        from <= to <= bars.len(),
    ensures
        low == window_low(bars@, from as int, to as int),
{
    let mut low: i64 = NO_SWING_LOW;
    let mut k: usize = from;
    while k < to
        invariant
            from <= k <= to <= bars.len(),
            low == window_low(bars@, from as int, k as int),
        decreases to - k,
    {
        if bars[k].low < low {
            low = bars[k].low;
        }
        k += 1;
    }
    low
}

/// The swing high before every bar.
pub fn find_swing_highs(bars: &Vec<Bar>, lookback: usize) -> (highs: Vec<i64>)
    ensures
        highs@ == Seq::new(bars@.len(), |i: int| swing_high_at(bars@, i, lookback as int)),
{
    let mut highs: Vec<i64> = Vec::new();
    let mut i: usize = 0;
    while i < bars.len()
        invariant
            0 <= i <= bars.len(),
            highs@ == Seq::new(i as nat, |k: int| swing_high_at(bars@, k, lookback as int)),
        decreases bars.len() - i,
    {
        let high = if i >= lookback {
            highest(bars, i - lookback, i)
        } else {
            NO_SWING_HIGH
        };
        highs.push(high);
        proof {
            assert(highs@ =~= Seq::new((i + 1) as nat, |k: int| swing_high_at(bars@, k, lookback as int)));
        }
        i += 1;
    }
    highs
}

/// The swing low before every bar.
pub fn find_swing_lows(bars: &Vec<Bar>, lookback: usize) -> (lows: Vec<i64>)
    ensures
        lows@ == Seq::new(bars@.len(), |i: int| swing_low_at(bars@, i, lookback as int)),
{
    let mut lows: Vec<i64> = Vec::new();
    let mut i: usize = 0;
    while i < bars.len()
        invariant
            0 <= i <= bars.len(),
            lows@ == Seq::new(i as nat, |k: int| swing_low_at(bars@, k, lookback as int)),
        decreases bars.len() - i,
    {
        let low = if i >= lookback {
            lowest(bars, i - lookback, i)
        } else {
            NO_SWING_LOW
        };
        lows.push(low);
        proof {
            assert(lows@ =~= Seq::new((i + 1) as nat, |k: int| swing_low_at(bars@, k, lookback as int)));
        }
        i += 1;
    }
    lows
}

/// Did a move that ends at `end_price` break the swing before the bar at
/// index `idx`?
pub fn check_broke_swing(
    direction: ImpulseDirection,
    end_price: i64,
    swing_highs: &Vec<i64>,
    swing_lows: &Vec<i64>,
    idx: usize,
) -> (broke: bool)
    ensures
        broke == spec_broke_swing(direction, end_price, swing_highs@, swing_lows@, idx as int),
{
    match direction {
        ImpulseDirection::Up => {
            if idx < swing_highs.len() && swing_highs[idx] != NO_SWING_HIGH {
                end_price > swing_highs[idx]
            } else {
                false
            }
        },
        ImpulseDirection::Down => {
            if idx < swing_lows.len() && swing_lows[idx] != NO_SWING_LOW {
                end_price < swing_lows[idx]
            } else {
                false
            }
        },
    }
}

/// Are the candles from index `from` up to `to` uniform?
pub fn check_uniform_candles(bars: &Vec<Bar>, from: usize, to: usize, direction: ImpulseDirection) -> (uniform:
    bool)
    requires
        from <= to <= bars.len(),
    ensures
        uniform == spec_uniform(bars@, from as int, to as int, direction),
{
    if from == to {
        return false;
    }
    let mut with: usize = 0;
    let mut over: usize = 0;
    let mut k: usize = from;
    while k < to
        invariant
            from <= k <= to <= bars.len(),
            with == matching(bars@, from as int, k as int, direction),
            over == overlaps(bars@, from as int, k as int),
            with <= k - from,
            over <= k - from,
        decreases to - k,
    {
        let bar = &bars[k];
        let goes = match direction {
            ImpulseDirection::Up => bar.is_bullish(),
            ImpulseDirection::Down => !bar.is_bullish(),
        };
        if goes {
            with = with + 1;
        }
        if k > from {
            let prev = &bars[k - 1];
            let prev_low = if prev.open <= prev.close {
                prev.open
            } else {
                prev.close
            };
            let prev_high = if prev.open >= prev.close {
                prev.open
            } else {
                prev.close
            };
            let low = if bar.open <= bar.close {
                bar.open
            } else {
                bar.close
            };
            let high = if bar.open >= bar.close {
                bar.open
            } else {
                bar.close
            };
            if low < prev_high && high > prev_low {
                over = over + 1;
            }
        }
        k += 1;
    }
    let n: u128 = (to - from) as u128;
    let pairs: u128 = if n - 1 >= 1 {
        n - 1
    } else {
        1
    };
    with as u128 * 10 >= 7 * n && (over as u128) * 2 < pairs
}

/// Volume of the bars from index `from` up to `to`.
pub fn volume_between(bars: &Vec<Bar>, from: usize, to: usize) -> (volume: u64)
    requires
        from <= to <= bars.len(),
        total_volume(bars@) <= u64::MAX,
    ensures
        volume == window_volume(bars@, from as int, to as int),
{
    let mut volume: u64 = 0;
    let mut k: usize = from;
    while k < to
        invariant
            from <= k <= to <= bars.len(),
            total_volume(bars@) <= u64::MAX,
            volume == window_volume(bars@, from as int, k as int),
        decreases to - k,
    {
        proof {
            lemma_window_within_total(bars@, from as int, k + 1);
        }
        volume = volume + bars[k].volume;
        k += 1;
    }
    volume
}

/// Did the volume rise on the move from index `from` up to `to`?
pub fn check_volume_increase(bars: &Vec<Bar>, from: usize, to: usize) -> (louder: bool)
    requires
        from <= to <= bars.len(),
        to - from <= 0xffff_ffff,
        total_volume(bars@) <= u64::MAX,
    ensures
        louder == spec_volume_increased(bars@, from as int, to as int),
{
    if from < SWING_LOOKBACK || from == to {
        return false;
    }
    let moved = volume_between(bars, from, to);
    let prior = volume_between(bars, from - SWING_LOOKBACK, from);
    let n: u128 = (to - from) as u128;
    proof {
        assert(prior as u128 * 12 * n <= 0xffff_ffff_ffff_ffff * 12 * 0xffff_ffff) by (nonlinear_arith)
            requires
                prior <= 0xffff_ffff_ffff_ffff,
                n <= 0xffff_ffff,
        ;
        assert(prior as u128 * 12 <= 0xffff_ffff_ffff_ffff * 12) by (nonlinear_arith)
            requires
                prior <= 0xffff_ffff_ffff_ffff,
        ;
    }
    moved as u128 * 100 > prior as u128 * 12 * n
}

/// The leg that starts at index `start`, if one does.
pub fn try_detect_impulse_at(
    bars: &Vec<Bar>,
    start: usize,
    swing_highs: &Vec<i64>,
    swing_lows: &Vec<i64>,
) -> (leg: Option<ImpulseLeg>)
    requires
        start < bars.len(),
        total_volume(bars@) <= u64::MAX,
        swing_highs@ == Seq::new(bars@.len(), |i: int| swing_high_at(bars@, i, SWING_LOOKBACK as int)),
        swing_lows@ == Seq::new(bars@.len(), |i: int| swing_low_at(bars@, i, SWING_LOOKBACK as int)),
    ensures
        leg == spec_try_at(bars@, start as int),
        leg.is_some() ==> MIN_CANDLES <= leg.unwrap().num_candles <= MAX_FAST_CANDLES && start
            + leg.unwrap().num_candles <= bars.len(),
{
    let mut n: usize = MIN_CANDLES;
    while n <= MAX_FAST_CANDLES && n <= bars.len() - start
        invariant
            MIN_CANDLES <= n <= MAX_FAST_CANDLES + 1,
            start < bars.len(),
            total_volume(bars@) <= u64::MAX,
            swing_highs@ == Seq::new(
                bars@.len(),
                |i: int| swing_high_at(bars@, i, SWING_LOOKBACK as int),
            ),
            swing_lows@ == Seq::new(
                bars@.len(),
                |i: int| swing_low_at(bars@, i, SWING_LOOKBACK as int),
            ),
            spec_try_at(bars@, start as int) == spec_try_from(
                bars@,
                start as int,
                n as int,
                SWING_LOOKBACK as int,
            ),
        decreases MAX_FAST_CANDLES + 1 - n,
    {
        let first = &bars[start];
        let last = &bars[start + n - 1];
        let change: i128 = last.close as i128 - first.open as i128;
        let size: i128 = if change >= 0 {
            change
        } else {
            -change
        };
        if size >= MIN_IMPULSE_MOVE as i128 {
            let direction = ImpulseDirection::of_move(first.open, last.close);
            let broke = check_broke_swing(direction, last.close, swing_highs, swing_lows, start);
            let fast = n <= MAX_FAST_CANDLES;
            let uniform = check_uniform_candles(bars, start, start + n, direction);
            let louder = check_volume_increase(bars, start, start + n);
            let volume = volume_between(bars, start, start + n);
            let mut score: u8 = 1;
            if broke {
                score = score + 1;
            }
            if fast {
                score = score + 1;
            }
            if uniform {
                score = score + 1;
            }
            if louder {
                score = score + 1;
            }
            return Some(
                ImpulseLeg {
                    start_time: first.timestamp,
                    end_time: last.timestamp,
                    start_price: first.open,
                    end_price: last.close,
                    direction,
                    symbol: first.symbol.clone(),
                    date: day_of(first.timestamp),
                    score_total: score,
                    broke_swing: broke,
                    was_fast: fast,
                    uniform_candles: uniform,
                    volume_increased: louder,
                    sufficient_size: true,
                    num_candles: n,
                    total_volume: volume,
                    avg_volume_per_bar: volume / n as u64,
                },
            );
        }
        n += 1;
    }
    None
}

/// Finds the impulse legs of one-minute bars.
pub fn detect_impulse_legs(bars_1m: &Vec<Bar>) -> (legs: Vec<ImpulseLeg>)
    requires
        total_volume(bars_1m@) <= u64::MAX,
    ensures
        legs@ == spec_impulse_legs(bars_1m@),
{
    let mut legs: Vec<ImpulseLeg> = Vec::new();
    if bars_1m.len() < SWING_LOOKBACK + MAX_FAST_CANDLES {
        return legs;
    }
    let swing_highs = find_swing_highs(bars_1m, SWING_LOOKBACK);
    let swing_lows = find_swing_lows(bars_1m, SWING_LOOKBACK);
    let mut i: usize = SWING_LOOKBACK;
    proof {
        assert(legs@ + legs_from(bars_1m@, i as int) =~= legs_from(bars_1m@, i as int));
    }
    while i < bars_1m.len()
        invariant
            SWING_LOOKBACK <= i,
            total_volume(bars_1m@) <= u64::MAX,
            swing_highs@ == Seq::new(
                bars_1m@.len(),
                |k: int| swing_high_at(bars_1m@, k, SWING_LOOKBACK as int),
            ),
            swing_lows@ == Seq::new(
                bars_1m@.len(),
                |k: int| swing_low_at(bars_1m@, k, SWING_LOOKBACK as int),
            ),
            legs@ + legs_from(bars_1m@, i as int) == legs_from(bars_1m@, SWING_LOOKBACK as int),
        decreases bars_1m.len() - i,
    {
        let ghost before = legs@;
        match try_detect_impulse_at(bars_1m, i, &swing_highs, &swing_lows) {
            Some(leg) => {
                if leg.score_total >= MIN_IMPULSE_SCORE {
                    let next = i + leg.num_candles;
                    proof {
                        assert(before.push(leg) + legs_from(bars_1m@, next as int) =~= before + (
                        seq![leg] + legs_from(bars_1m@, next as int)));
                    }
                    legs.push(leg);
                    i = next;
                } else {
                    i += 1;
                }
            },
            None => {
                i += 1;
            },
        }
    }
    proof {
        assert(legs@ + Seq::<ImpulseLeg>::empty() =~= legs@);
    }
    legs
}

} // verus!
