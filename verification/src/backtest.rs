//! The backtester: takes each signal that passes the strategy's filter as an
//! entry, follows the bars to the stop, the target or the end of the holding
//! time, and adds up how the trades fared.

use vstd::prelude::*;
use crate::bars::Bar;
use crate::levels::{is_near_level, spec_is_near_level, DailyLevels, MAX_LEVEL_PRICE};
use crate::price::TICK;
use crate::replay::{unsigned_millis, CapturedSignal};
use crate::trades::{hour_of, millis_of, spec_hour_of, spec_millis_of};
use crate::types::{Direction, SignalKind, Strength};

verus! {

/// The key-level filter's reach: two points.
pub const KEY_LEVEL_TOLERANCE: i64 = 2_000_000_000;

/// A result within this of nothing is breakeven: half a point.
pub const BREAKEVEN_BAND: i64 = 500_000_000;

/// Longest holding time a strategy can ask for, in seconds.
pub const MAX_HOLD_SECS: u64 = 1_000_000_000_000;

/// Latest time of a signal that can be traded, in milliseconds.
pub const MAX_SIGNAL_TIME: u64 = 4_611_686_018_427_387_904;

/// Milliseconds in a day.
pub const MILLIS_PER_DAY: u64 = 86_400_000;

/// First hour of regular trading, by UTC.
pub const RTH_OPEN_HOUR: u32 = 14;

/// First hour after regular trading, by UTC.
pub const RTH_CLOSE_HOUR: u32 = 21;

/// Dollars in a point of profit.
pub const DOLLARS_PER_POINT: i128 = 20;

/// What a strategy asks of a signal, and how it trades it. Stop and target
/// are distances in price units.
#[derive(Clone, Debug, PartialEq, Eq)]
pub struct StrategyConfig {
    pub min_confluence_score: u8,
    pub required_signals: Vec<SignalKind>,
    pub stop_loss_points: i64,
    pub take_profit_points: i64,
    pub max_hold_time_secs: u64,
    pub require_key_level: bool,
    pub min_strength: Option<Strength>,
    pub rth_only: bool,
}

impl Default for StrategyConfig {
    /// Confluences of two kinds or more, a stop of ten points, a target of
    /// twenty, five minutes at most, regular hours only.
    fn default() -> (config: StrategyConfig)
        ensures
            config.min_confluence_score == 2,
            config.required_signals@.len() == 0,
            config.stop_loss_points == 10_000_000_000,
            config.take_profit_points == 20_000_000_000,
            config.max_hold_time_secs == 300,
            !config.require_key_level,
            config.min_strength.is_none(),
            config.rth_only,
            config.ok(),
    {
        StrategyConfig {
            min_confluence_score: 2,
            required_signals: Vec::new(),
            stop_loss_points: 10_000_000_000,
            take_profit_points: 20_000_000_000,
            max_hold_time_secs: 300,
            require_key_level: false,
            min_strength: None,
            rth_only: true,
        }
    }
}

impl StrategyConfig {
    /// A strategy the backtester can run: stop and target are distances
    /// within `MAX_LEVEL_PRICE`, the holding time is within `MAX_HOLD_SECS`.
    pub open spec fn ok(&self) -> bool {
        &&& 0 <= self.stop_loss_points <= MAX_LEVEL_PRICE
        &&& 0 <= self.take_profit_points <= MAX_LEVEL_PRICE
        &&& self.max_hold_time_secs <= MAX_HOLD_SECS
    }

    /// Do two strategies say the same?
    pub open spec fn same(&self, other: StrategyConfig) -> bool {
        &&& self.min_confluence_score == other.min_confluence_score
        &&& self.required_signals@ == other.required_signals@
        &&& self.stop_loss_points == other.stop_loss_points
        &&& self.take_profit_points == other.take_profit_points
        &&& self.max_hold_time_secs == other.max_hold_time_secs
        &&& self.require_key_level == other.require_key_level
        &&& self.min_strength == other.min_strength
        &&& self.rth_only == other.rth_only
    }

    /// A strategy that says the same.
    pub fn copy(&self) -> (other: StrategyConfig)
        ensures
            self.same(other),
    {
        let mut required: Vec<SignalKind> = Vec::new();
        let mut i: usize = 0;
        while i < self.required_signals.len()
            invariant
                0 <= i <= self.required_signals.len(),
                required@ == self.required_signals@.take(i as int),
            decreases self.required_signals.len() - i,
        {
            required.push(self.required_signals[i]);
            proof {
                assert(self.required_signals@.take(i + 1) =~= self.required_signals@.take(
                    i as int,
                ).push(self.required_signals@[i as int]));
            }
            i += 1;
        }
        proof {
            assert(self.required_signals@.take(i as int) =~= self.required_signals@);
        }
        StrategyConfig {
            min_confluence_score: self.min_confluence_score,
            required_signals: required,
            stop_loss_points: self.stop_loss_points,
            take_profit_points: self.take_profit_points,
            max_hold_time_secs: self.max_hold_time_secs,
            require_key_level: self.require_key_level,
            min_strength: self.min_strength,
            rth_only: self.rth_only,
        }
    }

    /// Can the backtester run the strategy?
    pub fn is_ok(&self) -> (ok: bool)
        ensures
            ok == self.ok(),
    {
        0 <= self.stop_loss_points && self.stop_loss_points <= MAX_LEVEL_PRICE && 0
            <= self.take_profit_points && self.take_profit_points <= MAX_LEVEL_PRICE
            && self.max_hold_time_secs <= MAX_HOLD_SECS
    }
}

/// Which way a trade goes.
#[derive(Clone, Copy, Debug, PartialEq, Eq, Structural)]
pub enum TradeSide {
    Long,
    Short,
}

/// Why a trade ended.
#[derive(Clone, Copy, Debug, PartialEq, Eq, Structural)]
pub enum ExitReason {
    StopLoss,
    TakeProfit,
    Timeout,
}

impl TradeSide {
    /// The name at the serialization edge.
    pub fn as_str(&self) -> (name: &'static str)
        ensures
            name@ == (match *self {
                TradeSide::Long => "long"@,
                TradeSide::Short => "short"@,
            }),
    {
        match self {
            TradeSide::Long => "long",
            TradeSide::Short => "short",
        }
    }
}

impl ExitReason {
    /// The name at the serialization edge.
    pub fn as_str(&self) -> (name: &'static str)
        ensures
            name@ == (match *self {
                ExitReason::StopLoss => "stop_loss"@,
                ExitReason::TakeProfit => "take_profit"@,
                ExitReason::Timeout => "timeout"@,
            }),
    {
        match self {
            ExitReason::StopLoss => "stop_loss",
            ExitReason::TakeProfit => "take_profit",
            ExitReason::Timeout => "timeout",
        }
    }
}

/// How one trade fared. Times are in milliseconds, prices and results in
/// price units.
#[derive(Clone, Copy, Debug, PartialEq, Eq)]
pub struct TradeResult {
    pub entry_time: u64,
    pub exit_time: u64,
    pub entry_price: i64,
    pub exit_price: i64,
    pub direction: TradeSide,
    pub signal_type: SignalKind,
    pub pnl_points: i64,
    pub pnl_ticks: i32,
    pub exit_reason: ExitReason,
    pub max_favorable_excursion: i64,
    pub max_adverse_excursion: i64,
}

/// A result in ticks: a quarter point each, rounded to the nearest, halves
/// away from zero, and kept within 32 bits.
pub open spec fn spec_ticks(pnl: i64) -> i32 {
    let ticks: int = if pnl >= 0 {
        (pnl + TICK / 2) / (TICK as int)
    } else {
        -((-pnl + TICK / 2) / (TICK as int))
    };
    if ticks > i32::MAX {
        i32::MAX
    } else if ticks < i32::MIN {
        i32::MIN
    } else {
        ticks as i32
    }
}

/// A result in ticks.
pub fn ticks_of(pnl: i64) -> (ticks: i32)
    ensures
        ticks == spec_ticks(pnl),
{
    let p: i128 = pnl as i128;
    let ticks: i128 = if p >= 0 {
        (p + (TICK / 2) as i128) / TICK as i128
    } else {
        -((-p + (TICK / 2) as i128) / TICK as i128)
    };
    if ticks > i32::MAX as i128 {
        i32::MAX
    } else if ticks < i32::MIN as i128 {
        i32::MIN
    } else {
        ticks as i32
    }
}

impl TradeResult {
    /// Did the trade make anything?
    pub open spec fn spec_is_winner(&self) -> bool {
        self.pnl_points > 0
    }

    /// Did the trade make anything?
    pub fn is_winner(&self) -> (yes: bool)
        ensures
            yes == self.spec_is_winner(),
    {
        self.pnl_points > 0
    }

    /// How far the trade went the right way for every thousand units it
    /// went the wrong way, rounded towards zero; nought where it never went
    /// the wrong way.
    pub open spec fn spec_risk_reward(&self) -> int {
        if self.max_adverse_excursion == 0 {
            0
        } else {
            let scaled = self.max_favorable_excursion * 1000;
            let risk = self.max_adverse_excursion as int;
            let up = if scaled >= 0 {
                scaled
            } else {
                -scaled
            };
            let down = if risk >= 0 {
                risk
            } else {
                -risk
            };
            if (scaled >= 0) == (risk >= 0) {
                up / down
            } else {
                -(up / down)
            }
        }
    }

    /// Reward per thousand of risk.
    pub fn risk_reward(&self) -> (ratio: i128)
        ensures
            ratio == self.spec_risk_reward(),
    {
        if self.max_adverse_excursion == 0 {
            return 0;
        }
        let scaled: i128 = self.max_favorable_excursion as i128 * 1000;
        let risk: i128 = self.max_adverse_excursion as i128;
        let up: u128 = if scaled >= 0 {
            scaled as u128
        } else {
            (-scaled) as u128
        };
        let down: u128 = if risk >= 0 {
            risk as u128
        } else {
            (-risk) as u128
        };
        let q: u128 = up / down;
        proof {
            assert(q <= up) by (nonlinear_arith)
                requires
                    q == up / down,
                    down >= 1,
            ;
        }
        if (scaled >= 0) == (risk >= 0) {
            q as i128
        } else {
            -(q as i128)
        }
    }

    /// The result in dollars, in price units: twenty to the point.
    pub fn pnl_dollars(&self) -> (dollars: i128)
        ensures
            dollars == self.pnl_points * DOLLARS_PER_POINT,
    {
        self.pnl_points as i128 * DOLLARS_PER_POINT
    }
}

/// The time of a bar in milliseconds, as the signals count them.
pub open spec fn spec_bar_ms(bar: Bar) -> u64 {
    unsigned_millis(spec_millis_of(bar.timestamp))
}

/// The time of a bar in milliseconds.
pub fn bar_ms(bar: &Bar) -> (ms: u64)
    ensures
        ms == spec_bar_ms(*bar),
{
    let m = millis_of(bar.timestamp);
    assert(m >= 0 ==> m as u64 == m) by (bit_vector);
    assert(m < 0 ==> m as u64 == m + 0x1_0000_0000_0000_0000) by (bit_vector);
    #[verifier::truncate]
    (m as u64)
}

/// A bar whose prices the backtester can follow.
pub open spec fn bar_bounded(bar: Bar) -> bool {
    &&& -MAX_LEVEL_PRICE <= bar.high <= MAX_LEVEL_PRICE
    &&& -MAX_LEVEL_PRICE <= bar.low <= MAX_LEVEL_PRICE
    &&& -MAX_LEVEL_PRICE <= bar.close <= MAX_LEVEL_PRICE
}

/// Every bar's prices can be followed.
pub open spec fn bars_bounded(bars: Seq<Bar>) -> bool {
    forall|i: int| 0 <= i < bars.len() ==> bar_bounded(#[trigger] bars[i])
}

/// A signal the backtester can trade: its time leaves room for the holding
/// time, its price is within `MAX_LEVEL_PRICE` of zero.
pub open spec fn signal_fits(signal: CapturedSignal) -> bool {
    signal.timestamp <= MAX_SIGNAL_TIME && -MAX_LEVEL_PRICE <= signal.price <= MAX_LEVEL_PRICE
}

/// Every signal can be traded.
pub open spec fn signals_fit(signals: Seq<CapturedSignal>) -> bool {
    forall|i: int| 0 <= i < signals.len() ==> signal_fits(#[trigger] signals[i])
}

/// Is a time within regular trading hours? From the opening hour up to the
/// closing hour, by UTC.
pub open spec fn spec_is_rth(millis: u64) -> bool {
    RTH_OPEN_HOUR <= spec_hour_of(millis) < RTH_CLOSE_HOUR
}

/// Is a time within regular trading hours?
pub fn is_rth(millis: u64) -> (yes: bool)
    ensures
        yes == spec_is_rth(millis),
{
    let hour = hour_of(millis);
    hour >= RTH_OPEN_HOUR && hour < RTH_CLOSE_HOUR
}

/// The day of a time in milliseconds, in days since the epoch.
pub open spec fn spec_day_of_millis(millis: u64) -> i64 {
    (millis / MILLIS_PER_DAY) as i64
}

/// Is `price` within the tolerance of one of the day's five levels: point of
/// control, value area high and low, the day before's high and low?
pub open spec fn near_levels(levels: DailyLevels, price: i64) -> bool {
    ||| spec_is_near_level(price, levels.poc, KEY_LEVEL_TOLERANCE)
    ||| spec_is_near_level(price, levels.vah, KEY_LEVEL_TOLERANCE)
    ||| spec_is_near_level(price, levels.val, KEY_LEVEL_TOLERANCE)
    ||| spec_is_near_level(price, levels.pdh, KEY_LEVEL_TOLERANCE)
    ||| spec_is_near_level(price, levels.pdl, KEY_LEVEL_TOLERANCE)
}

/// Is `price` at a key level of day `date`? The last levels given for the day
/// decide; a day without levels has no key level.
pub open spec fn spec_at_key_level(levels: Seq<DailyLevels>, price: i64, date: i64) -> bool
    decreases levels.len(),
{
    if levels.len() == 0 {
        false
    } else if levels.last().date == date {
        near_levels(levels.last(), price)
    } else {
        spec_at_key_level(levels.drop_last(), price, date)
    }
}

/// Does the strategy ask for this kind of signal? It does where it names the
/// kind, and where it names none.
pub open spec fn kind_wanted(required: Seq<SignalKind>, kind: SignalKind) -> bool {
    required.len() == 0 || required.contains(kind)
}

/// The price at time `millis`: the close of the last bar that starts in the
/// second of that time, else that of the first bar at or after it.
pub open spec fn spec_price_at(bars: Seq<Bar>, millis: u64) -> Option<i64> {
    match last_at(bars, (millis / 1000 * 1000) as u64) {
        Some(close) => Some(close),
        None => first_from(bars, millis),
    }
}

/// The close of the last bar whose time is `millis`.
pub open spec fn last_at(bars: Seq<Bar>, millis: u64) -> Option<i64>
    decreases bars.len(),
{
    if bars.len() == 0 {
        None
    } else if spec_bar_ms(bars.last()) == millis {
        Some(bars.last().close)
    } else {
        last_at(bars.drop_last(), millis)
    }
}

/// The close of the first bar whose time is `millis` or later.
pub open spec fn first_from(bars: Seq<Bar>, millis: u64) -> Option<i64>
    decreases bars.len(),
{
    if bars.len() == 0 {
        None
    } else {
        match first_from(bars.drop_last(), millis) {
            Some(close) => Some(close),
            None => if spec_bar_ms(bars.last()) >= millis {
                Some(bars.last().close)
            } else {
                None
            },
        }
    }
}

/// A trade under way.
pub struct Walk {
    pub seen: bool,
    pub exited: bool,
    pub exit_time: u64,
    pub exit_price: i64,
    pub exit_reason: ExitReason,
    pub mfe: i64,
    pub mae: i64,
}

/// The larger of two.
pub open spec fn larger(a: i64, b: int) -> i64 {
    if b > a {
        b as i64
    } else {
        a
    }
}

/// What a trade is entered with.
pub struct Entry {
    pub time: u64,
    pub deadline: u64,
    pub price: i64,
    pub long: bool,
    pub stop: i64,
    pub target: i64,
}

/// The trade after one more bar. A bar outside the holding time, and any bar
/// after the exit, changes nothing. Otherwise the excursions follow the bar;
/// the stop is looked at before the target; a bar that reaches neither
/// leaves its close as the price to exit at when time runs out.
pub open spec fn step(walk: Walk, entry: Entry, bar: Bar) -> Walk {
    let ms = spec_bar_ms(bar);
    if walk.exited || ms < entry.time || ms > entry.deadline {
        walk
    } else {
        let mfe = larger(
            walk.mfe,
            if entry.long {
                bar.high - entry.price
            } else {
                entry.price - bar.low
            },
        );
        let mae = larger(
            walk.mae,
            if entry.long {
                entry.price - bar.low
            } else {
                bar.high - entry.price
            },
        );
        let stopped = if entry.long {
            bar.low <= entry.stop
        } else {
            bar.high >= entry.stop
        };
        let reached = if entry.long {
            bar.high >= entry.target
        } else {
            bar.low <= entry.target
        };
        if stopped {
            Walk {
                seen: true,
                exited: true,
                exit_time: ms,
                exit_price: entry.stop,
                exit_reason: ExitReason::StopLoss,
                mfe,
                mae,
            }
        } else if reached {
            Walk {
                seen: true,
                exited: true,
                exit_time: ms,
                exit_price: entry.target,
                exit_reason: ExitReason::TakeProfit,
                mfe,
                mae,
            }
        } else {
            Walk {
                seen: true,
                exited: false,
                exit_time: entry.deadline,
                exit_price: bar.close,
                exit_reason: ExitReason::Timeout,
                mfe,
                mae,
            }
        }
    }
}

/// The trade after the bars, in their order.
pub open spec fn walked(bars: Seq<Bar>, entry: Entry) -> Walk
    decreases bars.len(),
{
    if bars.len() == 0 {
        Walk {
            seen: false,
            exited: false,
            exit_time: entry.deadline,
            exit_price: 0,
            exit_reason: ExitReason::Timeout,
            mfe: 0,
            mae: 0,
        }
    } else {
        step(walked(bars.drop_last(), entry), entry, bars.last())
    }
}

/// The backtester as a value.
pub struct BacktesterView {
    pub config: StrategyConfig,
    pub bars: Seq<Bar>,
    pub daily_levels: Seq<DailyLevels>,
}

impl BacktesterView {
    /// A backtester that can run: its strategy is in range, and so are its bars.
    pub open spec fn wf(self) -> bool {
        self.config.ok() && bars_bounded(self.bars)
    }

    /// Does the signal pass the strategy's filter? It must fall into regular
    /// hours where the strategy trades those only, be of a kind the strategy
    /// asks for, be no weaker than the strategy asks where it has a strength,
    /// score no less than the strategy asks where it is a confluence, and be
    /// at a key level of its day where the strategy asks for that and the
    /// signal has a price.
    pub open spec fn passes(self, signal: CapturedSignal) -> bool {
        &&& !self.config.rth_only || spec_is_rth(signal.timestamp)
        &&& kind_wanted(self.config.required_signals@, signal.signal_type)
        &&& match (self.config.min_strength, signal.strength) {
            (Some(least), Some(strength)) => strength.spec_ordinal() >= least.spec_ordinal(),
            _ => true,
        }
        &&& match (signal.signal_type, signal.score) {
            (SignalKind::Confluence, Some(score)) => score >= self.config.min_confluence_score,
            _ => true,
        }
        &&& !(self.config.require_key_level && signal.price > 0) || spec_at_key_level(
            self.daily_levels,
            signal.price,
            spec_day_of_millis(signal.timestamp),
        )
    }

    /// The price a signal is entered at: its own where it has one, else the
    /// price at its time.
    pub open spec fn entry_price(self, signal: CapturedSignal) -> Option<i64> {
        if signal.price > 0 {
            Some(signal.price)
        } else {
            spec_price_at(self.bars, signal.timestamp)
        }
    }

    /// What the signal is entered with at `price`: a bullish signal long, any
    /// other short, with stop and target at the strategy's distances.
    pub open spec fn entry(self, signal: CapturedSignal, price: i64) -> Entry {
        let long = signal.direction == Direction::Bullish;
        Entry {
            time: signal.timestamp,
            deadline: (signal.timestamp + self.config.max_hold_time_secs * 1000) as u64,
            price,
            long,
            stop: (if long {
                price - self.config.stop_loss_points
            } else {
                price + self.config.stop_loss_points
            }) as i64,
            target: (if long {
                price + self.config.take_profit_points
            } else {
                price - self.config.take_profit_points
            }) as i64,
        }
    }

    /// How the trade on a signal fares; no trade where there is no price to
    /// enter at or no bar within the holding time.
    pub open spec fn simulate(self, signal: CapturedSignal) -> Option<TradeResult> {
        match self.entry_price(signal) {
            None => None,
            Some(price) => {
                let entry = self.entry(signal, price);
                let walk = walked(self.bars, entry);
                if !walk.seen {
                    None
                } else {
                    let pnl = (if entry.long {
                        walk.exit_price - price
                    } else {
                        price - walk.exit_price
                    }) as i64;
                    Some(
                        TradeResult {
                            entry_time: signal.timestamp,
                            exit_time: walk.exit_time,
                            entry_price: price,
                            exit_price: walk.exit_price,
                            direction: if entry.long {
                                TradeSide::Long
                            } else {
                                TradeSide::Short
                            },
                            signal_type: signal.signal_type,
                            pnl_points: pnl,
                            pnl_ticks: spec_ticks(pnl),
                            exit_reason: walk.exit_reason,
                            max_favorable_excursion: walk.mfe,
                            max_adverse_excursion: walk.mae,
                        },
                    )
                }
            },
        }
    }

    /// The trades on the signals from index `i` on, when the trade before
    /// ended at `busy_until`: a signal before that time is passed over, as is
    /// one that fails the filter or gives no trade.
    pub open spec fn trades_from(self, signals: Seq<CapturedSignal>, i: int, busy_until: u64) -> Seq<
        TradeResult,
    >
        decreases signals.len() - i,
    {
        if i < 0 || i >= signals.len() {
            Seq::empty()
        } else if signals[i].timestamp < busy_until || !self.passes(signals[i]) {
            self.trades_from(signals, i + 1, busy_until)
        } else {
            match self.simulate(signals[i]) {
                Some(trade) => seq![trade] + self.trades_from(signals, i + 1, trade.exit_time),
                None => self.trades_from(signals, i + 1, busy_until),
            }
        }
    }
}

/// The backtester.
pub struct Backtester {
    config: StrategyConfig,
    bars: Vec<Bar>,
    daily_levels: Vec<DailyLevels>,
}

impl View for Backtester {
    type V = BacktesterView;

    closed spec fn view(&self) -> BacktesterView {
        BacktesterView { config: self.config, bars: self.bars@, daily_levels: self.daily_levels@ }
    }
}

/// Can every bar's prices be followed?
pub fn bars_are_bounded(bars: &Vec<Bar>) -> (yes: bool)
    ensures
        yes == bars_bounded(bars@),
{
    let mut i: usize = 0;
    while i < bars.len()
        invariant
            0 <= i <= bars.len(),
            forall|k: int| 0 <= k < i ==> bar_bounded(#[trigger] bars@[k]),
        decreases bars.len() - i,
    {
        let b = &bars[i];
        if b.high < -MAX_LEVEL_PRICE || b.high > MAX_LEVEL_PRICE || b.low < -MAX_LEVEL_PRICE || b.low
            > MAX_LEVEL_PRICE || b.close < -MAX_LEVEL_PRICE || b.close > MAX_LEVEL_PRICE {
            return false;
        }
        i += 1;
    }
    true
}

/// Can every signal be traded?
pub fn signals_can_run(signals: &Vec<CapturedSignal>) -> (yes: bool)
    ensures
        yes == signals_fit(signals@),
{
    let mut i: usize = 0;
    while i < signals.len()
        invariant
            0 <= i <= signals.len(),
            forall|k: int| 0 <= k < i ==> signal_fits(#[trigger] signals@[k]),
        decreases signals.len() - i,
    {
        let s = signals[i];
        if s.timestamp > MAX_SIGNAL_TIME || s.price < -MAX_LEVEL_PRICE || s.price > MAX_LEVEL_PRICE {
            return false;
        }
        i += 1;
    }
    true
}

impl Backtester {
    /// A backtester of a strategy over bars and their daily levels; none
    /// where the strategy's figures or a bar's prices are out of range.
    pub fn new(config: StrategyConfig, bars: Vec<Bar>, levels: Vec<DailyLevels>) -> (backtester:
        Option<Backtester>)
        ensures
            backtester.is_some() == (config.ok() && bars_bounded(bars@)),
            backtester.is_some() ==> backtester.unwrap()@ == (BacktesterView {
                config,
                bars: bars@,
                daily_levels: levels@,
            }) && backtester.unwrap()@.wf(),
    {
        if config.is_ok() && bars_are_bounded(&bars) {
            Some(Backtester { config, bars, daily_levels: levels })
        } else {
            None
        }
    }

    /// The price at time `millis`.
    pub fn get_price_at(&self, millis: u64) -> (price: Option<i64>)
        ensures
            price == spec_price_at(self@.bars, millis),
    {
        let second = millis / 1000 * 1000;
        let mut i: usize = self.bars.len();
        proof {
            assert(self.bars@.take(i as int) =~= self.bars@);
        }
        while i > 0
            invariant
                0 <= i <= self.bars.len(),
                second == millis / 1000 * 1000,
                last_at(self.bars@, second) == last_at(self.bars@.take(i as int), second),
            decreases i,
        {
            proof {
                assert(self.bars@.take(i as int).drop_last() =~= self.bars@.take(i - 1));
                assert(self.bars@.take(i as int).last() == self.bars@[i - 1]);
            }
            if bar_ms(&self.bars[i - 1]) == second {
                return Some(self.bars[i - 1].close);
            }
            i -= 1;
        }
        let mut k: usize = 0;
        proof {
            assert(self.bars@.take(0) =~= Seq::<Bar>::empty());
            assert(last_at(self.bars@.take(0), second).is_none());
        }
        while k < self.bars.len()
            invariant
                0 <= k <= self.bars.len(),
                second == millis / 1000 * 1000,
                first_from(self.bars@.take(k as int), millis).is_none(),
                last_at(self.bars@, second).is_none(),
            decreases self.bars.len() - k,
        {
            proof {
                assert(self.bars@.take(k + 1).drop_last() =~= self.bars@.take(k as int));
                assert(self.bars@.take(k + 1).last() == self.bars@[k as int]);
                lemma_first_from_stays(self.bars@, k + 1, millis);
            }
            if bar_ms(&self.bars[k]) >= millis {
                return Some(self.bars[k].close);
            }
            k += 1;
        }
        proof {
            assert(self.bars@.take(k as int) =~= self.bars@);
        }
        None
    }

    /// Is `price` at a key level of day `date`?
    pub fn is_at_key_level(&self, price: i64, date: i64) -> (at: bool)
        ensures
            at == spec_at_key_level(self@.daily_levels, price, date),
    {
        let mut i: usize = self.daily_levels.len();
        proof {
            assert(self.daily_levels@.take(i as int) =~= self.daily_levels@);
        }
        while i > 0
            invariant
                0 <= i <= self.daily_levels.len(),
                spec_at_key_level(self.daily_levels@, price, date) == spec_at_key_level(
                    self.daily_levels@.take(i as int),
                    price,
                    date,
                ),
            decreases i,
        {
            proof {
                assert(self.daily_levels@.take(i as int).drop_last() =~= self.daily_levels@.take(
                    i - 1,
                ));
            }
            let l = &self.daily_levels[i - 1];
            if l.date == date {
                return is_near_level(price, l.poc, KEY_LEVEL_TOLERANCE) || is_near_level(
                    price,
                    l.vah,
                    KEY_LEVEL_TOLERANCE,
                ) || is_near_level(price, l.val, KEY_LEVEL_TOLERANCE) || is_near_level(
                    price,
                    l.pdh,
                    KEY_LEVEL_TOLERANCE,
                ) || is_near_level(price, l.pdl, KEY_LEVEL_TOLERANCE);
            }
            i -= 1;
        }
        false
    }

    /// Does the strategy ask for this kind of signal?
    fn wants(&self, kind: SignalKind) -> (yes: bool)
        ensures
            yes == kind_wanted(self@.config.required_signals@, kind),
    {
        if self.config.required_signals.len() == 0 {
            return true;
        }
        let mut i: usize = 0;
        while i < self.config.required_signals.len()
            invariant
                0 <= i <= self.config.required_signals.len(),
                forall|k: int| 0 <= k < i ==> self.config.required_signals@[k] != kind,
            decreases self.config.required_signals.len() - i,
        {
            if self.config.required_signals[i] == kind {
                return true;
            }
            i += 1;
        }
        false
    }

    /// Does the signal pass the strategy's filter?
    pub fn signal_passes_filter(&self, signal: &CapturedSignal) -> (passes: bool)
        ensures
            passes == self@.passes(*signal),
    {
        if self.config.rth_only && !is_rth(signal.timestamp) {
            return false;
        }
        if !self.wants(signal.signal_type) {
            return false;
        }
        match (self.config.min_strength, signal.strength) {
            (Some(least), Some(strength)) => {
                if strength.ordinal() < least.ordinal() {
                    return false;
                }
            },
            _ => {},
        }
        match (signal.signal_type, signal.score) {
            (SignalKind::Confluence, Some(score)) => {
                if score < self.config.min_confluence_score {
                    return false;
                }
            },
            _ => {},
        }
        if self.config.require_key_level && signal.price > 0 {
            let date = (signal.timestamp / MILLIS_PER_DAY) as i64;
            if !self.is_at_key_level(signal.price, date) {
                return false;
            }
        }
        true
    }

    /// Follows the trade on a signal through the bars.
    pub fn simulate_trade(&self, signal: &CapturedSignal) -> (trade: Option<TradeResult>)
        requires
            self@.wf(),
            signal_fits(*signal),
        ensures
            trade == self@.simulate(*signal),
            trade.is_some() ==> trade.unwrap().exit_time >= trade.unwrap().entry_time,
    {
        let price = if signal.price > 0 {
            signal.price
        } else {
            match self.get_price_at(signal.timestamp) {
                Some(p) => p,
                None => {
                    return None;
                },
            }
        };
        proof {
            if signal.price <= 0 {
                lemma_price_at_bounded(self.bars@, signal.timestamp);
            }
        }
        let long = match signal.direction {
            Direction::Bullish => true,
            Direction::Bearish => false,
        };
        let stop = if long {
            price - self.config.stop_loss_points
        } else {
            price + self.config.stop_loss_points
        };
        let target = if long {
            price + self.config.take_profit_points
        } else {
            price - self.config.take_profit_points
        };
        let deadline = signal.timestamp + self.config.max_hold_time_secs * 1000;
        let ghost entry = self@.entry(*signal, price);
        let mut seen = false;
        let mut exited = false;
        let mut exit_time = deadline;
        let mut exit_price: i64 = 0;
        let mut exit_reason = ExitReason::Timeout;
        let mut mfe: i64 = 0;
        let mut mae: i64 = 0;
        let mut i: usize = 0;
        proof {
            assert(self.bars@.take(0) =~= Seq::<Bar>::empty());
        }
        while i < self.bars.len() && !exited
            invariant
                0 <= i <= self.bars.len(),
                self@.wf(),
                -MAX_LEVEL_PRICE <= price <= MAX_LEVEL_PRICE,
                entry == self@.entry(*signal, price),
                entry.time == signal.timestamp,
                entry.deadline == deadline,
                entry.long == long,
                entry.stop == stop,
                entry.target == target,
                entry.price == price,
                -2 * MAX_LEVEL_PRICE <= stop <= 2 * MAX_LEVEL_PRICE,
                -2 * MAX_LEVEL_PRICE <= target <= 2 * MAX_LEVEL_PRICE,
                walked(self.bars@.take(i as int), entry) == (Walk {
                    seen,
                    exited,
                    exit_time,
                    exit_price,
                    exit_reason,
                    mfe,
                    mae,
                }),
                0 <= mfe <= 2 * MAX_LEVEL_PRICE,
                0 <= mae <= 2 * MAX_LEVEL_PRICE,
                -2 * MAX_LEVEL_PRICE <= exit_price <= 2 * MAX_LEVEL_PRICE,
                -2 * MAX_LEVEL_PRICE <= exit_price - price <= 2 * MAX_LEVEL_PRICE,
                exit_time >= signal.timestamp,
            decreases self.bars.len() - i,
        {
            let bar = &self.bars[i];
            proof {
                assert(self.bars@.take(i + 1).drop_last() =~= self.bars@.take(i as int));
                assert(bar_bounded(self.bars@[i as int]));
            }
            let ms = bar_ms(bar);
            if ms >= signal.timestamp && ms <= deadline {
                let favorable = if long {
                    bar.high - price
                } else {
                    price - bar.low
                };
                let adverse = if long {
                    price - bar.low
                } else {
                    bar.high - price
                };
                if favorable > mfe {
                    mfe = favorable;
                }
                if adverse > mae {
                    mae = adverse;
                }
                let stopped = if long {
                    bar.low <= stop
                } else {
                    bar.high >= stop
                };
                let reached = if long {
                    bar.high >= target
                } else {
                    bar.low <= target
                };
                seen = true;
                if stopped {
                    exited = true;
                    exit_time = ms;
                    exit_price = stop;
                    exit_reason = ExitReason::StopLoss;
                } else if reached {
                    exited = true;
                    exit_time = ms;
                    exit_price = target;
                    exit_reason = ExitReason::TakeProfit;
                } else {
                    exit_time = deadline;
                    exit_price = bar.close;
                    exit_reason = ExitReason::Timeout;
                }
            }
            i += 1;
        }
        proof {
            lemma_walk_after_exit(self.bars@, i as int, entry);
        }
        if !seen {
            return None;
        }
        let pnl = if long {
            exit_price - price
        } else {
            price - exit_price
        };
        Some(
            TradeResult {
                entry_time: signal.timestamp,
                exit_time,
                entry_price: price,
                exit_price,
                direction: if long {
                    TradeSide::Long
                } else {
                    TradeSide::Short
                },
                signal_type: signal.signal_type,
                pnl_points: pnl,
                pnl_ticks: ticks_of(pnl),
                exit_reason,
                max_favorable_excursion: mfe,
                max_adverse_excursion: mae,
            },
        )
    }

    /// The trades on the signals, one at a time: a signal that comes while a
    /// trade is on is passed over.
    pub fn trades(&self, signals: &Vec<CapturedSignal>) -> (trades: Vec<TradeResult>)
        requires
            self@.wf(),
            signals_fit(signals@),
        ensures
            trades@ == self@.trades_from(signals@, 0, 0),
            trades@.len() <= signals@.len(),
            forall|k: int|
                0 <= k < trades@.len() ==> (#[trigger] trades@[k]).exit_time
                    >= trades@[k].entry_time,
    {
        let mut trades: Vec<TradeResult> = Vec::new();
        let mut busy_until: u64 = 0;
        let mut i: usize = 0;
        proof {
            assert(trades@ + self@.trades_from(signals@, 0, 0) =~= self@.trades_from(signals@, 0, 0));
        }
        while i < signals.len()
            invariant
                0 <= i <= signals.len(),
                self@.wf(),
                signals_fit(signals@),
                trades@ + self@.trades_from(signals@, i as int, busy_until) == self@.trades_from(
                    signals@,
                    0,
                    0,
                ),
                trades@.len() <= i,
                forall|k: int|
                    0 <= k < trades@.len() ==> (#[trigger] trades@[k]).exit_time
                        >= trades@[k].entry_time,
            decreases signals.len() - i,
        {
            let signal = signals[i];
            proof {
                assert(signal_fits(signals@[i as int]));
            }
            if signal.timestamp >= busy_until && self.signal_passes_filter(&signal) {
                match self.simulate_trade(&signal) {
                    Some(trade) => {
                        proof {
                            assert(trades@.push(trade) + self@.trades_from(
                                signals@,
                                i + 1,
                                trade.exit_time,
                            ) =~= trades@ + (seq![trade] + self@.trades_from(
                                signals@,
                                i + 1,
                                trade.exit_time,
                            )));
                        }
                        busy_until = trade.exit_time;
                        trades.push(trade);
                    },
                    None => {},
                }
            }
            i += 1;
        }
        proof {
            assert(trades@ + Seq::<TradeResult>::empty() =~= trades@);
        }
        trades
    }

    /// The strategy.
    pub fn config(&self) -> (config: &StrategyConfig)
        ensures
            *config == self@.config,
    {
        &self.config
    }

    /// Runs the strategy over the signals and adds up how its trades fared.
    pub fn run(&self, signals: &Vec<CapturedSignal>) -> (results: BacktestResults)
        requires
            self@.wf(),
            signals_fit(signals@),
            signals@.len() <= MAX_TRADES,
        ensures
            results.trades@ == self@.trades_from(signals@, 0, 0),
            self@.config.same(results.config),
            sums_up(results),
    {
        let trades = self.trades(signals);
        calculate_statistics(self.config.copy(), trades)
    }
}

proof fn lemma_first_from_stays(bars: Seq<Bar>, i: int, millis: u64)
    requires
        0 <= i <= bars.len(),
    ensures
        first_from(bars.take(i), millis).is_some() ==> first_from(bars, millis) == first_from(
            bars.take(i),
            millis,
        ),
    decreases bars.len() - i,
{
    if i == bars.len() {
        assert(bars.take(i) =~= bars);
    } else {
        lemma_first_from_stays(bars, i + 1, millis);
        assert(bars.take(i + 1).drop_last() =~= bars.take(i));
    }
}

proof fn lemma_price_at_bounded(bars: Seq<Bar>, millis: u64)
    requires
        bars_bounded(bars),
    ensures
        spec_price_at(bars, millis).is_some() ==> -MAX_LEVEL_PRICE <= spec_price_at(
            bars,
            millis,
        ).unwrap() <= MAX_LEVEL_PRICE,
{
    lemma_closes_bounded(bars, (millis / 1000 * 1000) as u64);
    lemma_closes_bounded(bars, millis);
}

proof fn lemma_closes_bounded(bars: Seq<Bar>, millis: u64)
    requires
        bars_bounded(bars),
    ensures
        last_at(bars, millis).is_some() ==> -MAX_LEVEL_PRICE <= last_at(bars, millis).unwrap()
            <= MAX_LEVEL_PRICE,
        first_from(bars, millis).is_some() ==> -MAX_LEVEL_PRICE <= first_from(
            bars,
            millis,
        ).unwrap() <= MAX_LEVEL_PRICE,
    decreases bars.len(),
{
    if bars.len() > 0 {
        let rest = bars.drop_last();
        assert(bars_bounded(rest)) by {
            assert forall|i: int| 0 <= i < rest.len() implies bar_bounded(#[trigger] rest[i]) by {
                assert(rest[i] == bars[i]);
            }
        }
        lemma_closes_bounded(rest, millis);
        assert(bar_bounded(bars[bars.len() - 1]));
    }
}

proof fn lemma_walk_after_exit(bars: Seq<Bar>, i: int, entry: Entry)
    requires
        0 <= i <= bars.len(),
        i < bars.len() ==> walked(bars.take(i), entry).exited,
    ensures
        walked(bars, entry) == walked(bars.take(i), entry),
    decreases bars.len() - i,
{
    if i == bars.len() {
        assert(bars.take(i) =~= bars);
    } else {
        assert(bars.take(i + 1).drop_last() =~= bars.take(i));
        lemma_walk_after_exit(bars, i + 1, entry);
    }
}

/// Most trades that one run adds up.
pub const MAX_TRADES: u64 = 0x1_0000_0000_0000;

/// How the trades of a run fared, in whole numbers: counts, sums in price
/// units, times in milliseconds. The ratios that a report shows follow from
/// these and from the trades.
#[derive(Clone, Debug, PartialEq, Eq)]
pub struct BacktestResults {
    pub config: StrategyConfig,
    pub trades: Vec<TradeResult>,
    pub total_trades: u64,
    pub winners: u64,
    pub losers: u64,
    pub breakeven: u64,
    pub gross_profit: i128,
    pub gross_loss: i128,
    pub total_pnl_points: i128,
    pub max_drawdown_points: i128,
    pub max_consecutive_losses: u64,
    pub max_consecutive_wins: u64,
    pub total_hold_ms: u128,
    pub best_hour: Option<u32>,
    pub worst_hour: Option<u32>,
}

/// What trades add up to.
pub struct Sums {
    pub winners: nat,
    pub losers: nat,
    pub breakeven: nat,
    pub gross_profit: int,
    pub gross_loss: int,
    pub total: int,
    pub peak: int,
    pub max_drawdown: int,
    pub wins_in_a_row: nat,
    pub losses_in_a_row: nat,
    pub max_wins: nat,
    pub max_losses: nat,
    pub hold: nat,
}

/// Is the result a win? More than the breakeven band.
pub open spec fn wins(pnl: i64) -> bool {
    pnl > BREAKEVEN_BAND
}

/// Is the result a loss? More than the breakeven band the wrong way.
pub open spec fn loses(pnl: i64) -> bool {
    pnl < -BREAKEVEN_BAND
}

/// What the trades add up to. The drawdown is the furthest that the running
/// total falls below its peak, which starts at nothing. A run of wins counts
/// every trade that made anything and ends with a loss; a run of losses
/// counts losses and ends with a trade that made anything.
pub open spec fn sums_of(trades: Seq<TradeResult>) -> Sums
    decreases trades.len(),
{
    if trades.len() == 0 {
        Sums {
            winners: 0,
            losers: 0,
            breakeven: 0,
            gross_profit: 0,
            gross_loss: 0,
            total: 0,
            peak: 0,
            max_drawdown: 0,
            wins_in_a_row: 0,
            losses_in_a_row: 0,
            max_wins: 0,
            max_losses: 0,
            hold: 0,
        }
    } else {
        let s = sums_of(trades.drop_last());
        let t = trades.last();
        let pnl = t.pnl_points;
        let total = s.total + pnl;
        let peak = if total > s.peak {
            total
        } else {
            s.peak
        };
        let wins_in_a_row = if pnl > 0 {
            s.wins_in_a_row + 1
        } else if loses(pnl) {
            0
        } else {
            s.wins_in_a_row
        };
        let losses_in_a_row = if pnl > 0 {
            0
        } else if loses(pnl) {
            s.losses_in_a_row + 1
        } else {
            s.losses_in_a_row
        };
        Sums {
            winners: s.winners + if wins(pnl) { 1nat } else { 0nat },
            losers: s.losers + if loses(pnl) { 1nat } else { 0nat },
            breakeven: s.breakeven + if !wins(pnl) && !loses(pnl) { 1nat } else { 0nat },
            gross_profit: s.gross_profit + if wins(pnl) { pnl as int } else { 0 },
            gross_loss: s.gross_loss + if loses(pnl) { -pnl } else { 0 },
            total,
            peak,
            max_drawdown: if peak - total > s.max_drawdown {
                peak - total
            } else {
                s.max_drawdown
            },
            wins_in_a_row,
            losses_in_a_row,
            max_wins: if wins_in_a_row > s.max_wins {
                wins_in_a_row
            } else {
                s.max_wins
            },
            max_losses: if losses_in_a_row > s.max_losses {
                losses_in_a_row
            } else {
                s.max_losses
            },
            hold: (s.hold + (t.exit_time - t.entry_time)) as nat,
        }
    }
}

/// What the trades entered in hour `hour` of the day made together.
pub open spec fn hour_pnl(trades: Seq<TradeResult>, hour: u32) -> int
    decreases trades.len(),
{
    if trades.len() == 0 {
        0
    } else {
        hour_pnl(trades.drop_last(), hour) + if spec_hour_of(trades.last().entry_time) == hour {
            trades.last().pnl_points as int
        } else {
            0
        }
    }
}

/// Was a trade entered in hour `hour` of the day?
pub open spec fn hour_seen(trades: Seq<TradeResult>, hour: u32) -> bool
    decreases trades.len(),
{
    if trades.len() == 0 {
        false
    } else {
        hour_seen(trades.drop_last(), hour) || spec_hour_of(trades.last().entry_time) == hour
    }
}

/// The best of the hours before `below`: the hour with trades that made the
/// most, the earliest of them where several made as much.
pub open spec fn best_hour_below(trades: Seq<TradeResult>, below: int) -> Option<u32>
    decreases below,
{
    if below <= 0 {
        None
    } else {
        let before = best_hour_below(trades, below - 1);
        let hour = (below - 1) as u32;
        if !hour_seen(trades, hour) {
            before
        } else {
            match before {
                None => Some(hour),
                Some(best) => if hour_pnl(trades, hour) > hour_pnl(trades, best) {
                    Some(hour)
                } else {
                    Some(best)
                },
            }
        }
    }
}

/// The worst of the hours before `below`: the hour with trades that made the
/// least, the earliest of them where several made as little.
pub open spec fn worst_hour_below(trades: Seq<TradeResult>, below: int) -> Option<u32>
    decreases below,
{
    if below <= 0 {
        None
    } else {
        let before = worst_hour_below(trades, below - 1);
        let hour = (below - 1) as u32;
        if !hour_seen(trades, hour) {
            before
        } else {
            match before {
                None => Some(hour),
                Some(worst) => if hour_pnl(trades, hour) < hour_pnl(trades, worst) {
                    Some(hour)
                } else {
                    Some(worst)
                },
            }
        }
    }
}

/// Are the figures of the results what their trades add up to?
pub open spec fn sums_up(results: BacktestResults) -> bool {
    let s = sums_of(results.trades@);
    &&& results.total_trades == results.trades@.len()
    &&& results.winners == s.winners
    &&& results.losers == s.losers
    &&& results.breakeven == s.breakeven
    &&& results.gross_profit == s.gross_profit
    &&& results.gross_loss == s.gross_loss
    &&& results.total_pnl_points == s.total
    &&& results.max_drawdown_points == s.max_drawdown
    &&& results.max_consecutive_wins == s.max_wins
    &&& results.max_consecutive_losses == s.max_losses
    &&& results.total_hold_ms == s.hold
    &&& results.best_hour == best_hour_below(results.trades@, 24)
    &&& results.worst_hour == worst_hour_below(results.trades@, 24)
}

/// Can the trades be added up? There are no more than `MAX_TRADES`, and
/// none ends before it begins.
pub open spec fn results_fit(trades: Seq<TradeResult>) -> bool {
    &&& trades.len() <= MAX_TRADES
    &&& forall|k: int|
        0 <= k < trades.len() ==> (#[trigger] trades[k]).exit_time >= trades[k].entry_time
}

/// The bound that sums of `n` results stay within.
pub open spec fn bound(n: int) -> int {
    n * 0x1_0000_0000_0000_0000
}

proof fn lemma_sums_bounded(trades: Seq<TradeResult>)
    requires
        results_fit(trades),
    ensures
        ({
            let s = sums_of(trades);
            let n = trades.len() as int;
            &&& s.winners + s.losers + s.breakeven == n
            &&& 0 <= s.gross_profit <= bound(n)
            &&& 0 <= s.gross_loss <= bound(n)
            &&& -bound(n) <= s.total <= bound(n)
            &&& 0 <= s.peak <= bound(n)
            &&& 0 <= s.max_drawdown <= 2 * bound(n)
            &&& s.wins_in_a_row <= s.max_wins <= n
            &&& s.losses_in_a_row <= s.max_losses <= n
            &&& s.hold <= bound(n)
        }),
    decreases trades.len(),
{
    if trades.len() > 0 {
        let rest = trades.drop_last();
        assert(results_fit(rest)) by {
            assert forall|k: int| 0 <= k < rest.len() implies (#[trigger] rest[k]).exit_time
                >= rest[k].entry_time by {
                assert(rest[k] == trades[k]);
            }
        }
        lemma_sums_bounded(rest);
        assert(trades[trades.len() - 1].exit_time >= trades[trades.len() - 1].entry_time);
        let n = trades.len() as int;
        assert(bound(n) == bound(n - 1) + 0x1_0000_0000_0000_0000) by (nonlinear_arith);
    }
}

proof fn lemma_hours_bounded(trades: Seq<TradeResult>, hour: u32)
    ensures
        -bound(trades.len() as int) <= hour_pnl(trades, hour) <= bound(trades.len() as int),
    decreases trades.len(),
{
    if trades.len() > 0 {
        lemma_hours_bounded(trades.drop_last(), hour);
        let n = trades.len() as int;
        assert(bound(n) == bound(n - 1) + 0x1_0000_0000_0000_0000) by (nonlinear_arith);
    }
}

/// Adds up how the trades fared.
pub fn calculate_statistics(config: StrategyConfig, trades: Vec<TradeResult>) -> (results:
    BacktestResults)
    requires
        results_fit(trades@),
    ensures
        results.trades == trades,
        results.config == config,
        sums_up(results),
{
    let mut winners: u64 = 0;
    let mut losers: u64 = 0;
    let mut breakeven: u64 = 0;
    let mut gross_profit: i128 = 0;
    let mut gross_loss: i128 = 0;
    let mut total: i128 = 0;
    let mut peak: i128 = 0;
    let mut max_drawdown: i128 = 0;
    let mut wins_in_a_row: u64 = 0;
    let mut losses_in_a_row: u64 = 0;
    let mut max_wins: u64 = 0;
    let mut max_losses: u64 = 0;
    let mut hold: u128 = 0;
    let mut pnls: Vec<i128> = Vec::new();
    let mut seen: Vec<bool> = Vec::new();
    let mut h: usize = 0;
    while h < 24
        invariant
            0 <= h <= 24,
            pnls@.len() == h,
            seen@.len() == h,
            forall|k: int| 0 <= k < h ==> pnls@[k] == 0 && !seen@[k],
        decreases 24 - h,
    {
        pnls.push(0);
        seen.push(false);
        h += 1;
    }
    let mut i: usize = 0;
    proof {
        assert(trades@.take(0) =~= Seq::<TradeResult>::empty());
        assert(bound(0) == 0);
        assert forall|k: int| 0 <= k < 24 implies pnls@[k] == hour_pnl(trades@.take(0), k as u32)
            && seen@[k] == hour_seen(trades@.take(0), k as u32) by {}
    }
    while i < trades.len()
        invariant
            0 <= i <= trades.len(),
            results_fit(trades@),
            pnls@.len() == 24,
            seen@.len() == 24,
            winners == sums_of(trades@.take(i as int)).winners,
            losers == sums_of(trades@.take(i as int)).losers,
            breakeven == sums_of(trades@.take(i as int)).breakeven,
            gross_profit == sums_of(trades@.take(i as int)).gross_profit,
            gross_loss == sums_of(trades@.take(i as int)).gross_loss,
            total == sums_of(trades@.take(i as int)).total,
            peak == sums_of(trades@.take(i as int)).peak,
            max_drawdown == sums_of(trades@.take(i as int)).max_drawdown,
            wins_in_a_row == sums_of(trades@.take(i as int)).wins_in_a_row,
            losses_in_a_row == sums_of(trades@.take(i as int)).losses_in_a_row,
            max_wins == sums_of(trades@.take(i as int)).max_wins,
            max_losses == sums_of(trades@.take(i as int)).max_losses,
            hold == sums_of(trades@.take(i as int)).hold,
            forall|k: int|
                0 <= k < 24 ==> pnls@[k] == hour_pnl(trades@.take(i as int), k as u32) && seen@[k]
                    == hour_seen(trades@.take(i as int), k as u32),
        decreases trades.len() - i,
    {
        let t = trades[i];
        let pnl = t.pnl_points;
        let ghost before = trades@.take(i as int);
        let ghost next = trades@.take(i + 1);
        proof {
            assert(next.drop_last() =~= before);
            assert(results_fit(before)) by {
                assert forall|k: int| 0 <= k < before.len() implies (#[trigger] before[k]).exit_time
                    >= before[k].entry_time by {
                    assert(before[k] == trades@[k]);
                }
            }
            assert(results_fit(next)) by {
                assert forall|k: int| 0 <= k < next.len() implies (#[trigger] next[k]).exit_time
                    >= next[k].entry_time by {
                    assert(next[k] == trades@[k]);
                }
            }
            lemma_sums_bounded(before);
            lemma_sums_bounded(next);
            assert(trades@[i as int].exit_time >= trades@[i as int].entry_time);
            assert(bound(i as int) <= bound(MAX_TRADES as int)) by (nonlinear_arith)
                requires
                    i <= MAX_TRADES,
            ;
            assert(bound(i + 1) <= bound(MAX_TRADES as int)) by (nonlinear_arith)
                requires
                    i + 1 <= MAX_TRADES,
            ;
            assert(bound(MAX_TRADES as int) == 0x1_0000_0000_0000 * 0x1_0000_0000_0000_0000);
        }
        if pnl > BREAKEVEN_BAND {
            winners = winners + 1;
            gross_profit = gross_profit + pnl as i128;
        } else if pnl < -BREAKEVEN_BAND {
            losers = losers + 1;
            gross_loss = gross_loss - pnl as i128;
        } else {
            breakeven = breakeven + 1;
        }
        total = total + pnl as i128;
        if total > peak {
            peak = total;
        }
        if peak - total > max_drawdown {
            max_drawdown = peak - total;
        }
        if pnl > 0 {
            wins_in_a_row = wins_in_a_row + 1;
            losses_in_a_row = 0;
            if wins_in_a_row > max_wins {
                max_wins = wins_in_a_row;
            }
        } else if pnl < -BREAKEVEN_BAND {
            losses_in_a_row = losses_in_a_row + 1;
            wins_in_a_row = 0;
            if losses_in_a_row > max_losses {
                max_losses = losses_in_a_row;
            }
        }
        hold = hold + (t.exit_time - t.entry_time) as u128;
        let hour = hour_of(t.entry_time) as usize;
        proof {
            lemma_hours_bounded(before, hour as u32);
            lemma_hours_bounded(next, hour as u32);
        }
        let ghost old_pnls = pnls@;
        let ghost old_seen = seen@;
        pnls[hour] = pnls[hour] + pnl as i128;
        seen[hour] = true;
        proof {
            assert forall|k: int| 0 <= k < 24 implies pnls@[k] == hour_pnl(next, k as u32)
                && seen@[k] == hour_seen(next, k as u32) by {
                assert(old_pnls[k] == hour_pnl(before, k as u32));
                assert(old_seen[k] == hour_seen(before, k as u32));
            }
        }
        i += 1;
    }
    proof {
        assert(trades@.take(i as int) =~= trades@);
    }
    let mut best: Option<u32> = None;
    let mut worst: Option<u32> = None;
    let mut hour: usize = 0;
    while hour < 24
        invariant
            0 <= hour <= 24,
            pnls@.len() == 24,
            seen@.len() == 24,
            forall|k: int|
                0 <= k < 24 ==> pnls@[k] == hour_pnl(trades@, k as u32) && seen@[k] == hour_seen(
                    trades@,
                    k as u32,
                ),
            best == best_hour_below(trades@, hour as int),
            worst == worst_hour_below(trades@, hour as int),
            best.is_some() ==> best.unwrap() < 24,
            worst.is_some() ==> worst.unwrap() < 24,
        decreases 24 - hour,
    {
        if seen[hour] {
            match best {
                None => {
                    best = Some(hour as u32);
                },
                Some(b) => {
                    if pnls[hour] > pnls[b as usize] {
                        best = Some(hour as u32);
                    }
                },
            }
            match worst {
                None => {
                    worst = Some(hour as u32);
                },
                Some(w) => {
                    if pnls[hour] < pnls[w as usize] {
                        worst = Some(hour as u32);
                    }
                },
            }
        }
        hour += 1;
    }
    BacktestResults {
        config,
        total_trades: trades.len() as u64,
        trades,
        winners,
        losers,
        breakeven,
        gross_profit,
        gross_loss,
        total_pnl_points: total,
        max_drawdown_points: max_drawdown,
        max_consecutive_losses: max_losses,
        max_consecutive_wins: max_wins,
        total_hold_ms: hold,
        best_hour: best,
        worst_hour: worst,
    }
}

} // verus!
