//! Bars: open, high, low and close of a stretch of time, with its volume by
//! side, built from trades by the second and from bars by the minute.

use vstd::prelude::*;
use crate::trades::{
    minute_start, second_start, spec_minute_start, spec_second_start, valid_time, Trade,
};
use crate::types::Side;

verus! {

/// Most volume that bars can be built of, both sides together.
pub const MAX_BAR_VOLUME: u64 = 9_223_372_036_854_775_807;

/// The high of a bar that no price has reached yet.
pub const NO_HIGH: i64 = -9_223_372_036_854_775_808;

/// The low of a bar that no price has reached yet.
pub const NO_LOW: i64 = 9_223_372_036_854_775_807;

/// A bar: its time is the start of its stretch, in nanoseconds since the
/// epoch; its prices are in price units.
#[derive(Clone, Debug, PartialEq, Eq)]
pub struct Bar {
    pub timestamp: i64,
    pub open: i64,
    pub high: i64,
    pub low: i64,
    pub close: i64,
    pub volume: u64,
    pub buy_volume: u64,
    pub sell_volume: u64,
    pub delta: i64,
    pub trade_count: u64,
    pub symbol: String,
}

impl Bar {
    /// Did the bar close above its open?
    pub open spec fn spec_is_bullish(&self) -> bool {
        self.close > self.open
    }

    /// Did the bar close above its open?
    pub fn is_bullish(&self) -> (yes: bool)
        ensures
            yes == self.spec_is_bullish(),
    {
        self.close > self.open
    }

    /// Distance between open and close.
    pub open spec fn spec_body_size(&self) -> int {
        if self.close >= self.open {
            self.close - self.open
        } else {
            self.open - self.close
        }
    }

    /// Distance between open and close.
    pub fn body_size(&self) -> (size: u64)
        ensures
            size == self.spec_body_size(),
    {
        let gap: i128 = self.close as i128 - self.open as i128;
        if gap >= 0 {
            gap as u64
        } else {
            (-gap) as u64
        }
    }

    /// Distance from low to high; negative only in a bar whose low lies
    /// above its high.
    pub fn range(&self) -> (range: i128)
        ensures
            range == self.high - self.low,
    {
        self.high as i128 - self.low as i128
    }

    /// The lower end of the bar's body.
    pub open spec fn spec_body_low(&self) -> i64 {
        if self.open <= self.close {
            self.open
        } else {
            self.close
        }
    }

    /// The upper end of the bar's body.
    pub open spec fn spec_body_high(&self) -> i64 {
        if self.open >= self.close {
            self.open
        } else {
            self.close
        }
    }
}

/// What one trade or one bar adds to a bar.
#[derive(Clone, Copy, Debug, PartialEq, Eq)]
pub struct Sample {
    pub ts: i64,
    pub open: i64,
    pub high: i64,
    pub low: i64,
    pub close: i64,
    pub buy_volume: u64,
    pub sell_volume: u64,
    pub trade_count: u64,
}

/// What a trade adds to a bar.
pub open spec fn sample_of_trade(trade: Trade) -> Sample {
    Sample {
        ts: trade.ts_event,
        open: trade.price,
        high: trade.price,
        low: trade.price,
        close: trade.price,
        buy_volume: if trade.side == Side::Buy {
            trade.size
        } else {
            0
        },
        sell_volume: if trade.side == Side::Sell {
            trade.size
        } else {
            0
        },
        trade_count: 1,
    }
}

/// What a bar adds to a longer bar.
pub open spec fn sample_of_bar(bar: Bar) -> Sample {
    Sample {
        ts: bar.timestamp,
        open: bar.open,
        high: bar.high,
        low: bar.low,
        close: bar.close,
        buy_volume: bar.buy_volume,
        sell_volume: bar.sell_volume,
        trade_count: bar.trade_count,
    }
}

/// A bar in the making.
pub struct BarBuilder {
    pub timestamp: i64,
    pub symbol: String,
    pub open: Option<i64>,
    pub high: i64,
    pub low: i64,
    pub close: i64,
    pub buy_volume: u64,
    pub sell_volume: u64,
    pub trade_count: u64,
    pub first_ts: Option<i64>,
}

impl BarBuilder {
    /// A bar in the making that nothing has been added to.
    pub open spec fn fresh(timestamp: i64, symbol: String) -> BarBuilder {
        BarBuilder {
            timestamp,
            symbol,
            open: None,
            high: NO_HIGH,
            low: NO_LOW,
            close: 0,
            buy_volume: 0,
            sell_volume: 0,
            trade_count: 0,
            first_ts: None,
        }
    }

    /// Does a sample at time `ts` give the bar its open? The first sample
    /// does, and every one earlier than the earliest so far.
    pub open spec fn opens_with(self, ts: i64) -> bool {
        self.open.is_none() || self.first_ts.is_none() || ts < self.first_ts.unwrap()
    }

    /// The bar in the making with one more sample: the earliest sample gives
    /// the open, the latest added the close.
    pub open spec fn with_sample(self, s: Sample) -> BarBuilder {
        BarBuilder {
            timestamp: self.timestamp,
            symbol: self.symbol,
            open: if self.opens_with(s.ts) {
                Some(s.open)
            } else {
                self.open
            },
            high: if s.high > self.high {
                s.high
            } else {
                self.high
            },
            low: if s.low < self.low {
                s.low
            } else {
                self.low
            },
            close: s.close,
            buy_volume: (self.buy_volume + s.buy_volume) as u64,
            sell_volume: (self.sell_volume + s.sell_volume) as u64,
            trade_count: (self.trade_count + s.trade_count) as u64,
            first_ts: if self.opens_with(s.ts) {
                Some(s.ts)
            } else {
                self.first_ts
            },
        }
    }

    /// The finished bar. A bar that nothing was added to stands at its close.
    pub open spec fn build(self) -> Bar {
        Bar {
            timestamp: self.timestamp,
            open: match self.open {
                Some(open) => open,
                None => self.close,
            },
            high: if self.high == NO_HIGH {
                self.close
            } else {
                self.high
            },
            low: if self.low == NO_LOW {
                self.close
            } else {
                self.low
            },
            close: self.close,
            volume: (self.buy_volume + self.sell_volume) as u64,
            buy_volume: self.buy_volume,
            sell_volume: self.sell_volume,
            delta: (self.buy_volume - self.sell_volume) as i64,
            trade_count: self.trade_count,
            symbol: self.symbol,
        }
    }

    /// A bar in the making whose volume and count stay within bounds.
    pub open spec fn within(self, volume: int, count: int) -> bool {
        self.buy_volume + self.sell_volume <= volume && self.trade_count <= count
    }
}

/// Number of bars in the making that start before `key`.
pub open spec fn rank_of(builders: Seq<BarBuilder>, key: i64) -> int
    decreases builders.len(),
{
    if builders.len() == 0 {
        0
    } else {
        rank_of(builders.drop_last(), key) + if builders.last().timestamp < key {
            1int
        } else {
            0int
        }
    }
}

/// Ascending by start, no two at one start.
pub open spec fn ascending(builders: Seq<BarBuilder>) -> bool {
    forall|i: int, j: int|
        0 <= i < j < builders.len() ==> (#[trigger] builders[i]).timestamp
            < (#[trigger] builders[j]).timestamp
}

/// Bars in the making as the aggregation keeps them.
pub open spec fn builders_ok(builders: Seq<BarBuilder>, volume: int, count: int) -> bool {
    &&& ascending(builders)
    &&& forall|i: int| 0 <= i < builders.len() ==> (#[trigger] builders[i]).within(volume, count)
}

/// The bars in the making with one more sample in the stretch that starts
/// at `key`: the bar of that stretch takes it, or a new bar opens with it
/// under `symbol`.
pub open spec fn absorbed(builders: Seq<BarBuilder>, key: i64, s: Sample, symbol: String) -> Seq<
    BarBuilder,
> {
    let i = rank_of(builders, key);
    if i < builders.len() && builders[i].timestamp == key {
        builders.update(i, builders[i].with_sample(s))
    } else {
        builders.insert(i, BarBuilder::fresh(key, symbol).with_sample(s))
    }
}

/// The bars in the making after the trades, by the second.
pub open spec fn seconds_of(trades: Seq<Trade>) -> Seq<BarBuilder>
    decreases trades.len(),
{
    if trades.len() == 0 {
        Seq::empty()
    } else {
        absorbed(
            seconds_of(trades.drop_last()),
            spec_second_start(trades.last().ts_event),
            sample_of_trade(trades.last()),
            trades.last().symbol,
        )
    }
}

/// The bars in the making after the bars, by the minute.
pub open spec fn minutes_of(bars: Seq<Bar>) -> Seq<BarBuilder>
    decreases bars.len(),
{
    if bars.len() == 0 {
        Seq::empty()
    } else {
        absorbed(
            minutes_of(bars.drop_last()),
            spec_minute_start(bars.last().timestamp),
            sample_of_bar(bars.last()),
            bars.last().symbol,
        )
    }
}

/// The finished bars, in the order of their starts.
pub open spec fn built(builders: Seq<BarBuilder>) -> Seq<Bar> {
    Seq::new(builders.len(), |i: int| builders[i].build())
}

/// Volume of the trades, both sides together.
pub open spec fn trades_volume(trades: Seq<Trade>) -> nat
    decreases trades.len(),
{
    if trades.len() == 0 {
        0
    } else {
        trades_volume(trades.drop_last()) + trades.last().size as nat
    }
}

/// Volume of the bars, by their two sides.
pub open spec fn bars_volume(bars: Seq<Bar>) -> nat
    decreases bars.len(),
{
    if bars.len() == 0 {
        0
    } else {
        bars_volume(bars.drop_last()) + bars.last().buy_volume as nat + bars.last().sell_volume as nat
    }
}

/// Number of trades in the bars.
pub open spec fn bars_trades(bars: Seq<Bar>) -> nat
    decreases bars.len(),
{
    if bars.len() == 0 {
        0
    } else {
        bars_trades(bars.drop_last()) + bars.last().trade_count as nat
    }
}

/// Can bars be built of the trades? Their times must be times the pipeline
/// works with, and their volume must not exceed `MAX_BAR_VOLUME`.
pub open spec fn trades_fit(trades: Seq<Trade>) -> bool {
    &&& forall|i: int| 0 <= i < trades.len() ==> valid_time((#[trigger] trades[i]).ts_event)
    &&& trades_volume(trades) <= MAX_BAR_VOLUME
}

/// Can longer bars be built of the bars?
pub open spec fn bars_fit(bars: Seq<Bar>) -> bool {
    &&& forall|i: int| 0 <= i < bars.len() ==> valid_time((#[trigger] bars[i]).timestamp)
    &&& bars_volume(bars) <= MAX_BAR_VOLUME
    &&& bars_trades(bars) <= u64::MAX
}

proof fn lemma_rank_is_split(builders: Seq<BarBuilder>, key: i64, i: int)
    requires
        0 <= i <= builders.len(),
        forall|j: int| 0 <= j < i ==> (#[trigger] builders[j]).timestamp < key,
        forall|j: int| i <= j < builders.len() ==> (#[trigger] builders[j]).timestamp >= key,
    ensures
        rank_of(builders, key) == i,
    decreases builders.len(),
{
    if builders.len() > 0 {
        let rest = builders.drop_last();
        assert forall|j: int| 0 <= j < rest.len() implies rest[j] == builders[j] by {}
        if i == builders.len() {
            assert(builders[builders.len() - 1].timestamp < key);
            assert forall|j: int| 0 <= j < i - 1 implies (#[trigger] rest[j]).timestamp < key by {
                assert(rest[j] == builders[j]);
            }
            lemma_rank_is_split(rest, key, i - 1);
        } else {
            assert(builders[builders.len() - 1].timestamp >= key);
            assert forall|j: int| 0 <= j < i implies (#[trigger] rest[j]).timestamp < key by {
                assert(rest[j] == builders[j]);
            }
            assert forall|j: int| i <= j < rest.len() implies (#[trigger] rest[j]).timestamp
                >= key by {
                assert(rest[j] == builders[j]);
            }
            lemma_rank_is_split(rest, key, i);
        }
    }
}

/// Adds a sample to the bar of the stretch that starts at `key`, or opens
/// that bar with it.
pub fn absorb(builders: &mut Vec<BarBuilder>, key: i64, s: Sample, symbol: &String)
    requires
        exists|volume: int, count: int|
            s.buy_volume + s.sell_volume + volume <= MAX_BAR_VOLUME && s.trade_count + count
                <= u64::MAX && volume >= 0 && count >= 0 && #[trigger] builders_ok(
                old(builders)@,
                volume,
                count,
            ),
    ensures
        final(builders)@ == absorbed(old(builders)@, key, s, *symbol),
        forall|volume: int, count: int|
            volume >= 0 && count >= 0 && #[trigger] builders_ok(old(builders)@, volume, count)
                ==> builders_ok(
                final(builders)@,
                volume + s.buy_volume + s.sell_volume,
                count + s.trade_count,
            ),
{
    let ghost (room, counts) = choose|volume: int, count: int|
        s.buy_volume + s.sell_volume + volume <= MAX_BAR_VOLUME && s.trade_count + count
            <= u64::MAX && volume >= 0 && count >= 0 && #[trigger] builders_ok(
            old(builders)@,
            volume,
            count,
        );
    let ghost before = builders@;
    let mut i: usize = builders.len();
    while i > 0 && builders[i - 1].timestamp >= key
        invariant
            0 <= i <= builders.len(),
            builders@ == before,
            forall|j: int| i <= j < before.len() ==> (#[trigger] before[j]).timestamp >= key,
        decreases i,
    {
        i -= 1;
    }
    proof {
        assert forall|j: int| 0 <= j < i implies (#[trigger] before[j]).timestamp < key by {
            if j < i - 1 {
                assert(before[j].timestamp < before[i - 1].timestamp);
            }
        }
        lemma_rank_is_split(before, key, i as int);
    }
    if i < builders.len() && builders[i].timestamp == key {
        proof {
            assert(before[i as int].within(room, counts));
        }
        let opens = builders[i].open.is_none() || match builders[i].first_ts {
            Some(first) => s.ts < first,
            None => true,
        };
        if opens {
            builders[i].open = Some(s.open);
            builders[i].first_ts = Some(s.ts);
        }
        if s.high > builders[i].high {
            builders[i].high = s.high;
        }
        if s.low < builders[i].low {
            builders[i].low = s.low;
        }
        builders[i].close = s.close;
        builders[i].buy_volume = builders[i].buy_volume + s.buy_volume;
        builders[i].sell_volume = builders[i].sell_volume + s.sell_volume;
        builders[i].trade_count = builders[i].trade_count + s.trade_count;
        proof {
            assert(builders@[i as int] == before[i as int].with_sample(s));
            assert(builders@ =~= before.update(i as int, before[i as int].with_sample(s)));
        }
    } else {
        builders.insert(
            i,
            BarBuilder {
                timestamp: key,
                symbol: symbol.clone(),
                open: Some(s.open),
                high: if s.high > NO_HIGH {
                    s.high
                } else {
                    NO_HIGH
                },
                low: if s.low < NO_LOW {
                    s.low
                } else {
                    NO_LOW
                },
                close: s.close,
                buy_volume: s.buy_volume,
                sell_volume: s.sell_volume,
                trade_count: s.trade_count,
                first_ts: Some(s.ts),
            },
        );
    }
    proof {
        let after = builders@;
        assert forall|volume: int, count: int|
            volume >= 0 && count >= 0 && #[trigger] builders_ok(before, volume, count) implies builders_ok(
            after,
            volume + s.buy_volume + s.sell_volume,
            count + s.trade_count,
        ) by {
            let v = volume + s.buy_volume + s.sell_volume;
            let c = count + s.trade_count;
            if i < before.len() && before[i as int].timestamp == key {
                assert forall|k: int| 0 <= k < after.len() implies (#[trigger] after[k]).within(
                    v,
                    c,
                ) by {
                    assert(before[k].within(volume, count));
                }
                assert forall|k: int, l: int| 0 <= k < l < after.len() implies (
                #[trigger] after[k]).timestamp < (#[trigger] after[l]).timestamp by {
                    assert(before[k].timestamp < before[l].timestamp);
                }
            } else {
                assert forall|k: int| 0 <= k < after.len() implies (#[trigger] after[k]).within(
                    v,
                    c,
                ) by {
                    if k < i {
                        assert(before[k].within(volume, count));
                    } else if k > i {
                        assert(before[k - 1].within(volume, count));
                    }
                }
                assert forall|k: int, l: int| 0 <= k < l < after.len() implies (
                #[trigger] after[k]).timestamp < (#[trigger] after[l]).timestamp by {
                    if l < i {
                        assert(before[k].timestamp < before[l].timestamp);
                    } else if l == i {
                        assert(before[k].timestamp < key);
                    } else if k < i {
                        assert(before[k].timestamp < key);
                        assert(before[l - 1].timestamp >= key);
                    } else if k == i {
                        assert(before[l - 1].timestamp >= key);
                    } else {
                        assert(before[k - 1].timestamp < before[l - 1].timestamp);
                    }
                }
            }
        }
    }
}

/// Finishes the bars.
pub fn build_all(builders: Vec<BarBuilder>) -> (bars: Vec<Bar>)
    requires
        forall|i: int|
            0 <= i < builders@.len() ==> (#[trigger] builders@[i]).buy_volume
                + builders@[i].sell_volume <= MAX_BAR_VOLUME,
    ensures
        bars@ == built(builders@),
{
    let mut bars: Vec<Bar> = Vec::new();
    let mut i: usize = 0;
    while i < builders.len()
        invariant
            0 <= i <= builders.len(),
            forall|k: int|
                0 <= k < builders@.len() ==> (#[trigger] builders@[k]).buy_volume
                    + builders@[k].sell_volume <= MAX_BAR_VOLUME,
            bars@ == built(builders@.take(i as int)),
        decreases builders.len() - i,
    {
        let b = &builders[i];
        proof {
            assert(builders@[i as int].buy_volume + builders@[i as int].sell_volume
                <= MAX_BAR_VOLUME);
        }
        let bar = Bar {
            timestamp: b.timestamp,
            open: match b.open {
                Some(open) => open,
                None => b.close,
            },
            high: if b.high == NO_HIGH {
                b.close
            } else {
                b.high
            },
            low: if b.low == NO_LOW {
                b.close
            } else {
                b.low
            },
            close: b.close,
            volume: b.buy_volume + b.sell_volume,
            buy_volume: b.buy_volume,
            sell_volume: b.sell_volume,
            delta: (b.buy_volume as i128 - b.sell_volume as i128) as i64,
            trade_count: b.trade_count,
            symbol: b.symbol.clone(),
        };
        bars.push(bar);
        proof {
            assert(built(builders@.take(i + 1)) =~= built(builders@.take(i as int)).push(
                builders@[i as int].build(),
            ));
        }
        i += 1;
    }
    proof {
        assert(builders@.take(i as int) =~= builders@);
    }
    bars
}

proof fn lemma_trades_prefix(trades: Seq<Trade>, i: int)
    requires
        0 <= i <= trades.len(),
    ensures
        trades_volume(trades.take(i)) <= trades_volume(trades),
    decreases trades.len() - i,
{
    if i == trades.len() {
        assert(trades.take(i) =~= trades);
    } else {
        lemma_trades_prefix(trades, i + 1);
        assert(trades.take(i + 1).drop_last() =~= trades.take(i));
    }
}

proof fn lemma_bars_prefix(bars: Seq<Bar>, i: int)
    requires
        0 <= i <= bars.len(),
    ensures
        bars_volume(bars.take(i)) <= bars_volume(bars),
        bars_trades(bars.take(i)) <= bars_trades(bars),
    decreases bars.len() - i,
{
    if i == bars.len() {
        assert(bars.take(i) =~= bars);
    } else {
        lemma_bars_prefix(bars, i + 1);
        assert(bars.take(i + 1).drop_last() =~= bars.take(i));
    }
}

/// Can bars be built of the trades?
pub fn trades_can_aggregate(trades: &Vec<Trade>) -> (yes: bool)
    ensures
        yes == trades_fit(trades@),
{
    let mut volume: u64 = 0;
    let mut i: usize = 0;
    while i < trades.len()
        invariant
            0 <= i <= trades.len(),
            volume == trades_volume(trades@.take(i as int)),
            volume <= MAX_BAR_VOLUME,
            forall|k: int| 0 <= k < i ==> valid_time((#[trigger] trades@[k]).ts_event),
        decreases trades.len() - i,
    {
        proof {
            assert(trades@.take(i + 1).drop_last() =~= trades@.take(i as int));
            lemma_trades_prefix(trades@, i + 1);
        }
        if trades[i].ts_event < crate::trades::MIN_TIME {
            return false;
        }
        if trades[i].size > MAX_BAR_VOLUME - volume {
            return false;
        }
        volume = volume + trades[i].size;
        i += 1;
    }
    proof {
        assert(trades@.take(i as int) =~= trades@);
    }
    true
}

/// Can longer bars be built of the bars?
pub fn bars_can_aggregate(bars: &Vec<Bar>) -> (yes: bool)
    ensures
        yes == bars_fit(bars@),
{
    let mut volume: u64 = 0;
    let mut count: u64 = 0;
    let mut i: usize = 0;
    while i < bars.len()
        invariant
            0 <= i <= bars.len(),
            volume == bars_volume(bars@.take(i as int)),
            count == bars_trades(bars@.take(i as int)),
            volume <= MAX_BAR_VOLUME,
            forall|k: int| 0 <= k < i ==> valid_time((#[trigger] bars@[k]).timestamp),
        decreases bars.len() - i,
    {
        proof {
            assert(bars@.take(i + 1).drop_last() =~= bars@.take(i as int));
            lemma_bars_prefix(bars@, i + 1);
        }
        if bars[i].timestamp < crate::trades::MIN_TIME {
            return false;
        }
        if bars[i].buy_volume > MAX_BAR_VOLUME - volume {
            return false;
        }
        if bars[i].sell_volume > MAX_BAR_VOLUME - volume - bars[i].buy_volume {
            return false;
        }
        if bars[i].trade_count > u64::MAX - count {
            return false;
        }
        volume = volume + bars[i].buy_volume + bars[i].sell_volume;
        count = count + bars[i].trade_count;
        i += 1;
    }
    proof {
        assert(bars@.take(i as int) =~= bars@);
    }
    true
}

/// Builds one bar for every second that has a trade, in the order of the
/// seconds.
pub fn aggregate_to_1s_bars(trades: &Vec<Trade>) -> (bars: Vec<Bar>)
    requires
        trades_fit(trades@),
    ensures
        bars@ == built(seconds_of(trades@)),
{
    let mut builders: Vec<BarBuilder> = Vec::new();
    let mut i: usize = 0;
    proof {
        assert(trades@.take(0) =~= Seq::<Trade>::empty());
    }
    while i < trades.len()
        invariant
            0 <= i <= trades.len(),
            trades_fit(trades@),
            builders@ == seconds_of(trades@.take(i as int)),
            builders_ok(builders@, trades_volume(trades@.take(i as int)) as int, i as int),
        decreases trades.len() - i,
    {
        let trade = &trades[i];
        proof {
            assert(trades@.take(i + 1).drop_last() =~= trades@.take(i as int));
            lemma_trades_prefix(trades@, i + 1);
            assert(valid_time(trades@[i as int].ts_event));
        }
        let sample = Sample {
            ts: trade.ts_event,
            open: trade.price,
            high: trade.price,
            low: trade.price,
            close: trade.price,
            buy_volume: match trade.side {
                Side::Buy => trade.size,
                Side::Sell => 0,
            },
            sell_volume: match trade.side {
                Side::Buy => 0,
                Side::Sell => trade.size,
            },
            trade_count: 1,
        };
        absorb(&mut builders, second_start(trade.ts_event), sample, &trade.symbol);
        i += 1;
    }
    proof {
        assert(trades@.take(i as int) =~= trades@);
        assert forall|k: int| 0 <= k < builders@.len() implies (#[trigger] builders@[k]).buy_volume
            + builders@[k].sell_volume <= MAX_BAR_VOLUME by {
            assert(builders@[k].within(trades_volume(trades@) as int, i as int));
        }
    }
    build_all(builders)
}

/// Builds one bar for every minute that has a bar, in the order of the
/// minutes.
pub fn aggregate_to_1m_bars(bars_1s: &Vec<Bar>) -> (bars: Vec<Bar>)
    requires
        bars_fit(bars_1s@),
    ensures
        bars@ == built(minutes_of(bars_1s@)),
{
    let mut builders: Vec<BarBuilder> = Vec::new();
    let mut i: usize = 0;
    proof {
        assert(bars_1s@.take(0) =~= Seq::<Bar>::empty());
    }
    while i < bars_1s.len()
        invariant
            0 <= i <= bars_1s.len(),
            bars_fit(bars_1s@),
            builders@ == minutes_of(bars_1s@.take(i as int)),
            builders_ok(
                builders@,
                bars_volume(bars_1s@.take(i as int)) as int,
                bars_trades(bars_1s@.take(i as int)) as int,
            ),
        decreases bars_1s.len() - i,
    {
        let bar = &bars_1s[i];
        proof {
            assert(bars_1s@.take(i + 1).drop_last() =~= bars_1s@.take(i as int));
            lemma_bars_prefix(bars_1s@, i + 1);
            assert(valid_time(bars_1s@[i as int].timestamp));
        }
        let sample = Sample {
            ts: bar.timestamp,
            open: bar.open,
            high: bar.high,
            low: bar.low,
            close: bar.close,
            buy_volume: bar.buy_volume,
            sell_volume: bar.sell_volume,
            trade_count: bar.trade_count,
        };
        absorb(&mut builders, minute_start(bar.timestamp), sample, &bar.symbol);
        i += 1;
    }
    proof {
        assert(bars_1s@.take(i as int) =~= bars_1s@);
        assert forall|k: int| 0 <= k < builders@.len() implies (#[trigger] builders@[k]).buy_volume
            + builders@[k].sell_volume <= MAX_BAR_VOLUME by {
            assert(builders@[k].within(
                bars_volume(bars_1s@) as int,
                bars_trades(bars_1s@) as int,
            ));
        }
    }
    build_all(builders)
}

} // verus!
