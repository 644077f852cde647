//! The signals on record: the recent ones that a confluence is made of, the
//! history that outcomes are scored on, and the statistics of the session.

use vstd::prelude::*;
use crate::retention::{elapsed, expire, kept, spec_elapsed, spec_within, within, Retained};
use crate::types::{
    confluence_view, ConfluenceEvent, ConfluenceView, Direction, Outcome, SessionStats, SignalKind,
    SignalRecord, SignalStats,
};

verus! {

/// How long a signal can take part in a confluence, in milliseconds.
pub const CONFLUENCE_WINDOW_MS: u64 = 5_000;

/// Least time between two confluences, in milliseconds.
pub const CONFLUENCE_COOLDOWN_MS: u64 = 10_000;

/// When a record's first later price is taken, in milliseconds.
pub const ONE_MINUTE_MS: u64 = 60_000;

/// When a record's second later price is taken and it is scored.
pub const FIVE_MINUTES_MS: u64 = 300_000;

/// How long a record stays in the history, in milliseconds.
pub const SIGNAL_HISTORY_MS: u64 = 1_800_000;

/// Time between two reports of the session's statistics, in milliseconds.
pub const STATS_PERIOD_MS: u64 = 5_000;

/// Least move that decides an outcome: two points.
pub const MIN_MOVE: i64 = 2_000_000_000;

/// Largest price a signal can carry: the upper edge of the highest bucket.
pub const MAX_SIGNAL_PRICE: i64 = 1_000_000_001_000_000_000;

/// The session's highest price before any signal.
pub const NO_HIGH: i64 = 0;

/// The session's lowest price before any signal.
pub const NO_LOW: i64 = 9_223_372_036_854_775_807;

/// A price a signal can carry.
pub open spec fn signal_price(price: i64) -> bool {
    0 <= price <= MAX_SIGNAL_PRICE
}

/// A signal that can still take part in a confluence.
#[derive(Clone, Copy, Debug, PartialEq, Eq)]
pub struct RecentSignal {
    pub timestamp: u64,
    pub kind: SignalKind,
    pub direction: Direction,
    pub price: i64,
}

impl Retained for RecentSignal {
    open spec fn spec_keep(&self, now: u64) -> bool {
        spec_within(self.timestamp, now, CONFLUENCE_WINDOW_MS)
    }

    fn keep(&self, now: u64) -> (stays: bool) {
        within(self.timestamp, now, CONFLUENCE_WINDOW_MS)
    }

    proof fn keep_is_monotone(&self, earlier: u64, later: u64) {
    }
}

impl Retained for SignalRecord {
    open spec fn spec_keep(&self, now: u64) -> bool {
        spec_within(self.timestamp, now, SIGNAL_HISTORY_MS)
    }

    fn keep(&self, now: u64) -> (stays: bool) {
        within(self.timestamp, now, SIGNAL_HISTORY_MS)
    }

    proof fn keep_is_monotone(&self, earlier: u64, later: u64) {
    }
}

/// Direction of the latest recent signal of `kind`, if there is one.
pub open spec fn spec_latest(recent: Seq<RecentSignal>, kind: SignalKind) -> Option<Direction>
    decreases recent.len(),
{
    if recent.len() == 0 {
        None
    } else if recent.last().kind == kind {
        Some(recent.last().direction)
    } else {
        spec_latest(recent.drop_last(), kind)
    }
}

/// One where the latest recent signal of `kind` points in `direction`.
pub open spec fn vote(recent: Seq<RecentSignal>, kind: SignalKind, direction: Direction) -> int {
    if spec_latest(recent, kind) == Some(direction) {
        1
    } else {
        0
    }
}

/// Number of kinds whose latest recent signal points in `direction`.
pub open spec fn votes(recent: Seq<RecentSignal>, direction: Direction) -> int {
    vote(recent, SignalKind::DeltaFlip, direction) + vote(recent, SignalKind::Absorption, direction)
        + vote(recent, SignalKind::StackedImbalance, direction) + vote(
        recent,
        SignalKind::Confluence,
        direction,
    )
}

/// `kinds` with `kind` added where a recent signal of it exists.
pub open spec fn with_kind(kinds: Seq<SignalKind>, recent: Seq<RecentSignal>, kind: SignalKind) -> Seq<
    SignalKind,
> {
    if spec_latest(recent, kind).is_some() {
        kinds.push(kind)
    } else {
        kinds
    }
}

/// The kinds that have a recent signal: delta flip, absorption, stacked
/// imbalance, confluence, in that order.
pub open spec fn present_kinds(recent: Seq<RecentSignal>) -> Seq<SignalKind> {
    with_kind(
        with_kind(
            with_kind(
                with_kind(Seq::empty(), recent, SignalKind::DeltaFlip),
                recent,
                SignalKind::Absorption,
            ),
            recent,
            SignalKind::StackedImbalance,
        ),
        recent,
        SignalKind::Confluence,
    )
}

/// The direction that the recent signals agree on: one that the latest
/// signals of two kinds or more point in, bullish first.
pub open spec fn consensus(recent: Seq<RecentSignal>) -> Option<Direction> {
    if votes(recent, Direction::Bullish) >= 2 {
        Some(Direction::Bullish)
    } else if votes(recent, Direction::Bearish) >= 2 {
        Some(Direction::Bearish)
    } else {
        None
    }
}

/// The confluence of the recent signals at time `now`, if there is one: the
/// cooldown has passed, there are two recent signals or more, of two kinds or
/// more, and they agree on a direction.
pub open spec fn spec_confluence(
    recent: Seq<RecentSignal>,
    last_confluence_time: u64,
    now: u64,
    price: i64,
) -> Option<ConfluenceView> {
    if !spec_elapsed(last_confluence_time, now, CONFLUENCE_COOLDOWN_MS) || recent.len() < 2
        || present_kinds(recent).len() < 2 || consensus(recent).is_none() {
        None
    } else {
        Some(
            ConfluenceView {
                timestamp: now,
                price,
                direction: consensus(recent).unwrap(),
                score: present_kinds(recent).len() as u8,
                signals: present_kinds(recent),
                price_after_1m: None,
                price_after_5m: None,
            },
        )
    }
}

/// A fresh record of a signal.
pub open spec fn fresh_record(now: u64, kind: SignalKind, direction: Direction, price: i64) -> SignalRecord {
    SignalRecord {
        timestamp: now,
        price,
        signal_type: kind,
        direction,
        price_after_1m: None,
        price_after_5m: None,
        outcome: None,
    }
}

/// The outcome of a signal in `direction` after the price has moved by
/// `change`: a win where it moved the least move or more the signal's way, a
/// loss where it moved as much against it, breakeven in between.
pub open spec fn spec_classify(direction: Direction, change: int) -> Outcome {
    match direction {
        Direction::Bullish => if change >= MIN_MOVE {
            Outcome::Win
        } else if change <= -MIN_MOVE {
            Outcome::Loss
        } else {
            Outcome::Breakeven
        },
        Direction::Bearish => if change <= -MIN_MOVE {
            Outcome::Win
        } else if change >= MIN_MOVE {
            Outcome::Loss
        } else {
            Outcome::Breakeven
        },
    }
}

/// A record at time `now` with the price at `price`: after a minute it takes
/// its first later price, after five its second and its outcome, each once.
pub open spec fn spec_scored(record: SignalRecord, now: u64, price: i64) -> SignalRecord {
    let first = record.price_after_1m.is_none() && spec_elapsed(record.timestamp, now, ONE_MINUTE_MS);
    let second = record.price_after_5m.is_none() && spec_elapsed(
        record.timestamp,
        now,
        FIVE_MINUTES_MS,
    );
    SignalRecord {
        timestamp: record.timestamp,
        price: record.price,
        signal_type: record.signal_type,
        direction: record.direction,
        price_after_1m: if first {
            Some(price)
        } else {
            record.price_after_1m
        },
        price_after_5m: if second {
            Some(price)
        } else {
            record.price_after_5m
        },
        outcome: if second {
            Some(spec_classify(record.direction, price - record.price))
        } else {
            record.outcome
        },
    }
}

/// Every record scored at time `now`.
pub open spec fn all_scored(history: Seq<SignalRecord>, now: u64, price: i64) -> Seq<SignalRecord>
    decreases history.len(),
{
    if history.len() == 0 {
        history
    } else {
        all_scored(history.drop_last(), now, price).push(spec_scored(history.last(), now, price))
    }
}

/// What the records of one kind add up to.
pub struct Tally {
    pub count: nat,
    pub bullish: nat,
    pub wins: nat,
    pub losses: nat,
    pub moved_1m: int,
    pub samples_1m: nat,
    pub moved_5m: int,
    pub samples_5m: nat,
}

/// The tally of the records of `kind`.
pub open spec fn tally(history: Seq<SignalRecord>, kind: SignalKind) -> Tally
    decreases history.len(),
{
    if history.len() == 0 {
        Tally {
            count: 0,
            bullish: 0,
            wins: 0,
            losses: 0,
            moved_1m: 0,
            samples_1m: 0,
            moved_5m: 0,
            samples_5m: 0,
        }
    } else {
        let rest = tally(history.drop_last(), kind);
        let r = history.last();
        if r.signal_type != kind {
            rest
        } else {
            Tally {
                count: rest.count + 1,
                bullish: rest.bullish + if r.direction == Direction::Bullish { 1nat } else { 0nat },
                wins: rest.wins + if r.outcome == Some(Outcome::Win) { 1nat } else { 0nat },
                losses: rest.losses + if r.outcome == Some(Outcome::Loss) { 1nat } else { 0nat },
                moved_1m: rest.moved_1m + match r.price_after_1m {
                    Some(p) => p - r.price,
                    None => 0,
                },
                samples_1m: rest.samples_1m + if r.price_after_1m.is_some() { 1nat } else { 0nat },
                moved_5m: rest.moved_5m + match r.price_after_5m {
                    Some(p) => p - r.price,
                    None => 0,
                },
                samples_5m: rest.samples_5m + if r.price_after_5m.is_some() { 1nat } else { 0nat },
            }
        }
    }
}

/// Mean of `samples` moves that add up to `moved`, rounded towards zero; zero
/// where there are none.
pub open spec fn spec_mean(moved: int, samples: nat) -> int {
    if samples == 0 {
        0
    } else if moved >= 0 {
        moved / samples as int
    } else {
        -((-moved) / samples as int)
    }
}

/// Share of the wins among the decided outcomes, in hundredths of a percent,
/// rounded down; zero where nothing is decided.
pub open spec fn spec_win_rate(wins: nat, losses: nat) -> int {
    if wins + losses == 0 {
        0
    } else {
        (wins * 10_000) as int / (wins + losses) as int
    }
}

/// The statistics of the records of `kind`.
pub open spec fn spec_stats(history: Seq<SignalRecord>, kind: SignalKind) -> SignalStats {
    let t = tally(history, kind);
    SignalStats {
        count: t.count as u64,
        bullish_count: t.bullish as u64,
        bearish_count: (t.count - t.bullish) as u64,
        wins: t.wins as u64,
        losses: t.losses as u64,
        avg_move_1m: spec_mean(t.moved_1m, t.samples_1m) as i64,
        avg_move_5m: spec_mean(t.moved_5m, t.samples_5m) as i64,
        win_rate: spec_win_rate(t.wins, t.losses) as u64,
    }
}

/// The signals on record, as a value.
pub struct TrackerView {
    pub recent: Seq<RecentSignal>,
    pub history: Seq<SignalRecord>,
    pub session_high: i64,
    pub session_low: i64,
    pub current_price: i64,
    pub last_confluence_time: u64,
    pub last_stats_broadcast: u64,
}

/// A record whose prices are prices a signal can carry.
pub open spec fn record_ok(record: SignalRecord) -> bool {
    &&& signal_price(record.price)
    &&& record.price_after_1m.is_some() ==> signal_price(record.price_after_1m.unwrap())
    &&& record.price_after_5m.is_some() ==> signal_price(record.price_after_5m.unwrap())
}

/// Every record's prices are prices a signal can carry.
pub open spec fn records_ok(history: Seq<SignalRecord>) -> bool {
    forall|i: int| 0 <= i < history.len() ==> record_ok(#[trigger] history[i])
}

impl TrackerView {
    /// A tracker without a signal.
    pub open spec fn initial() -> TrackerView {
        TrackerView {
            recent: Seq::empty(),
            history: Seq::empty(),
            session_high: NO_HIGH,
            session_low: NO_LOW,
            current_price: 0,
            last_confluence_time: 0,
            last_stats_broadcast: 0,
        }
    }

    /// A tracker in order: every price on record is one a signal can carry.
    pub open spec fn wf(self) -> bool {
        &&& records_ok(self.history)
        &&& signal_price(self.current_price)
    }

    /// The recent signals once a signal has joined them and those older than
    /// the confluence window have left.
    pub open spec fn recent_with(self, now: u64, kind: SignalKind, direction: Direction, price: i64) -> Seq<
        RecentSignal,
    > {
        kept(self.recent.push(RecentSignal { timestamp: now, kind, direction, price }), now)
    }

    /// The confluence that a signal completes, if it does.
    pub open spec fn confluence_on(
        self,
        now: u64,
        kind: SignalKind,
        direction: Direction,
        price: i64,
    ) -> Option<ConfluenceView> {
        spec_confluence(
            self.recent_with(now, kind, direction, price),
            self.last_confluence_time,
            now,
            price,
        )
    }

    /// The tracker after a signal: the session's extremes and current price
    /// follow it, it joins the recent signals and the history, and where it
    /// completes a confluence, the confluence goes on record too and the
    /// recent signals start anew.
    pub open spec fn record(self, now: u64, kind: SignalKind, direction: Direction, price: i64) -> TrackerView {
        let recent = self.recent_with(now, kind, direction, price);
        let history = self.history.push(fresh_record(now, kind, direction, price));
        let confluence = self.confluence_on(now, kind, direction, price);
        TrackerView {
            recent: if confluence.is_some() {
                Seq::empty()
            } else {
                recent
            },
            history: match confluence {
                Some(c) => history.push(fresh_record(now, SignalKind::Confluence, c.direction, price)),
                None => history,
            },
            session_high: if price > self.session_high {
                price
            } else {
                self.session_high
            },
            session_low: if price < self.session_low && price > 0 {
                price
            } else {
                self.session_low
            },
            current_price: price,
            last_confluence_time: if confluence.is_some() {
                now
            } else {
                self.last_confluence_time
            },
            last_stats_broadcast: self.last_stats_broadcast,
        }
    }

    /// The tracker after its records have been scored at time `now` and those
    /// older than the history's span have left.
    pub open spec fn settle(self, now: u64) -> TrackerView {
        TrackerView { history: kept(all_scored(self.history, now, self.current_price), now), ..self }
    }

    /// Are the session's statistics due at time `now`?
    pub open spec fn stats_due(self, now: u64) -> bool {
        spec_elapsed(self.last_stats_broadcast, now, STATS_PERIOD_MS)
    }

    /// The tracker after the statistics were reported at `now`, if they were
    /// due.
    pub open spec fn reported(self, now: u64) -> TrackerView {
        TrackerView {
            last_stats_broadcast: if self.stats_due(now) {
                now
            } else {
                self.last_stats_broadcast
            },
            ..self
        }
    }

    /// The statistics of a session that started at `session_start` and has
    /// traded `total_volume`. An extreme that no signal has set is reported
    /// as the current price.
    pub open spec fn session_stats(self, session_start: u64, total_volume: u64) -> SessionStats {
        SessionStats {
            session_start,
            delta_flips: spec_stats(self.history, SignalKind::DeltaFlip),
            absorptions: spec_stats(self.history, SignalKind::Absorption),
            stacked_imbalances: spec_stats(self.history, SignalKind::StackedImbalance),
            confluences: spec_stats(self.history, SignalKind::Confluence),
            current_price: self.current_price,
            session_high: if self.session_high > NO_HIGH {
                self.session_high
            } else {
                self.current_price
            },
            session_low: if self.session_low < NO_LOW {
                self.session_low
            } else {
                self.current_price
            },
            total_volume,
        }
    }
}

/// The signals on record.
pub struct SignalTracker {
    recent: Vec<RecentSignal>,
    history: Vec<SignalRecord>,
    session_high: i64,
    session_low: i64,
    current_price: i64,
    last_confluence_time: u64,
    last_stats_broadcast: u64,
}

impl View for SignalTracker {
    type V = TrackerView;

    closed spec fn view(&self) -> TrackerView {
        TrackerView {
            recent: self.recent@,
            history: self.history@,
            session_high: self.session_high,
            session_low: self.session_low,
            current_price: self.current_price,
            last_confluence_time: self.last_confluence_time,
            last_stats_broadcast: self.last_stats_broadcast,
        }
    }
}

/// Direction of the latest recent signal of `kind`, if there is one.
pub fn latest_direction(recent: &Vec<RecentSignal>, kind: SignalKind) -> (direction: Option<Direction>)
    ensures
        direction == spec_latest(recent@, kind),
{
    let mut i: usize = recent.len();
    proof {
        assert(recent@.take(i as int) =~= recent@);
    }
    while i > 0
        invariant
            0 <= i <= recent.len(),
            spec_latest(recent@, kind) == spec_latest(recent@.take(i as int), kind),
        decreases i,
    {
        proof {
            assert(recent@.take(i as int).drop_last() =~= recent@.take(i - 1));
        }
        if recent[i - 1].kind == kind {
            return Some(recent[i - 1].direction);
        }
        i -= 1;
    }
    None
}

/// The outcome of a signal in `direction` after the price has gone from
/// `from` to `to`.
pub fn classify(direction: Direction, from: i64, to: i64) -> (outcome: Outcome)
    ensures
        outcome == spec_classify(direction, to - from),
{
    let change: i128 = to as i128 - from as i128;
    match direction {
        Direction::Bullish => if change >= MIN_MOVE as i128 {
            Outcome::Win
        } else if change <= -(MIN_MOVE as i128) {
            Outcome::Loss
        } else {
            Outcome::Breakeven
        },
        Direction::Bearish => if change <= -(MIN_MOVE as i128) {
            Outcome::Win
        } else if change >= MIN_MOVE as i128 {
            Outcome::Loss
        } else {
            Outcome::Breakeven
        },
    }
}

/// Scores a record at time `now` with the price at `price`.
pub fn scored(record: &SignalRecord, now: u64, price: i64) -> (after: SignalRecord)
    ensures
        after == spec_scored(*record, now, price),
{
    let first = record.price_after_1m.is_none() && elapsed(record.timestamp, now, ONE_MINUTE_MS);
    let second = record.price_after_5m.is_none() && elapsed(record.timestamp, now, FIVE_MINUTES_MS);
    SignalRecord {
        timestamp: record.timestamp,
        price: record.price,
        signal_type: record.signal_type,
        direction: record.direction,
        price_after_1m: if first {
            Some(price)
        } else {
            record.price_after_1m
        },
        price_after_5m: if second {
            Some(price)
        } else {
            record.price_after_5m
        },
        outcome: if second {
            Some(classify(record.direction, record.price, price))
        } else {
            record.outcome
        },
    }
}

/// The confluence of the recent signals at time `now`, if there is one.
pub fn detect_confluence(recent: &Vec<RecentSignal>, last_confluence_time: u64, now: u64, price: i64) -> (event:
    Option<ConfluenceEvent>)
    ensures
        confluence_view(event) == spec_confluence(recent@, last_confluence_time, now, price),
{
    if !elapsed(last_confluence_time, now, CONFLUENCE_COOLDOWN_MS) {
        return None;
    }
    if recent.len() < 2 {
        return None;
    }
    let mut signals: Vec<SignalKind> = Vec::new();
    let mut bullish: u8 = 0;
    let mut bearish: u8 = 0;
    match latest_direction(recent, SignalKind::DeltaFlip) {
        Some(d) => {
            signals.push(SignalKind::DeltaFlip);
            match d {
                Direction::Bullish => {
                    bullish = bullish + 1;
                },
                Direction::Bearish => {
                    bearish = bearish + 1;
                },
            }
        },
        None => {},
    }
    match latest_direction(recent, SignalKind::Absorption) {
        Some(d) => {
            signals.push(SignalKind::Absorption);
            match d {
                Direction::Bullish => {
                    bullish = bullish + 1;
                },
                Direction::Bearish => {
                    bearish = bearish + 1;
                },
            }
        },
        None => {},
    }
    match latest_direction(recent, SignalKind::StackedImbalance) {
        Some(d) => {
            signals.push(SignalKind::StackedImbalance);
            match d {
                Direction::Bullish => {
                    bullish = bullish + 1;
                },
                Direction::Bearish => {
                    bearish = bearish + 1;
                },
            }
        },
        None => {},
    }
    match latest_direction(recent, SignalKind::Confluence) {
        Some(d) => {
            signals.push(SignalKind::Confluence);
            match d {
                Direction::Bullish => {
                    bullish = bullish + 1;
                },
                Direction::Bearish => {
                    bearish = bearish + 1;
                },
            }
        },
        None => {},
    }
    assert(signals@ == present_kinds(recent@));
    assert(bullish == votes(recent@, Direction::Bullish));
    assert(bearish == votes(recent@, Direction::Bearish));
    if signals.len() < 2 {
        return None;
    }
    let direction = if bullish >= 2 {
        Direction::Bullish
    } else if bearish >= 2 {
        Direction::Bearish
    } else {
        return None;
    };
    let score = signals.len() as u8;
    Some(
        ConfluenceEvent {
            timestamp: now,
            price,
            direction,
            score,
            signals,
            price_after_1m: None,
            price_after_5m: None,
        },
    )
}

proof fn lemma_tally_bounds(history: Seq<SignalRecord>, kind: SignalKind)
    requires
        records_ok(history),
    ensures
        ({
            let t = tally(history, kind);
            &&& t.bullish <= t.count <= history.len()
            &&& t.wins + t.losses <= t.count
            &&& t.samples_1m <= t.count
            &&& t.samples_5m <= t.count
            &&& -MAX_SIGNAL_PRICE * t.samples_1m <= t.moved_1m <= MAX_SIGNAL_PRICE * t.samples_1m
            &&& -MAX_SIGNAL_PRICE * t.samples_5m <= t.moved_5m <= MAX_SIGNAL_PRICE * t.samples_5m
        }),
    decreases history.len(),
{
    if history.len() > 0 {
        let rest = history.drop_last();
        assert(records_ok(rest)) by {
            assert forall|i: int| 0 <= i < rest.len() implies record_ok(#[trigger] rest[i]) by {
                assert(rest[i] == history[i]);
            }
        }
        lemma_tally_bounds(rest, kind);
        assert(record_ok(history[history.len() - 1]));
        let t = tally(rest, kind);
        assert(MAX_SIGNAL_PRICE * (t.samples_1m + 1) == MAX_SIGNAL_PRICE * t.samples_1m
            + MAX_SIGNAL_PRICE) by (nonlinear_arith);
        assert(MAX_SIGNAL_PRICE * (t.samples_5m + 1) == MAX_SIGNAL_PRICE * t.samples_5m
            + MAX_SIGNAL_PRICE) by (nonlinear_arith);
        assert(-MAX_SIGNAL_PRICE * (t.samples_1m + 1) == -MAX_SIGNAL_PRICE * t.samples_1m
            - MAX_SIGNAL_PRICE) by (nonlinear_arith);
        assert(-MAX_SIGNAL_PRICE * (t.samples_5m + 1) == -MAX_SIGNAL_PRICE * t.samples_5m
            - MAX_SIGNAL_PRICE) by (nonlinear_arith);
    }
}

proof fn lemma_mean_in_range(moved: int, samples: nat)
    requires
        -MAX_SIGNAL_PRICE * samples <= moved <= MAX_SIGNAL_PRICE * samples,
    ensures
        -MAX_SIGNAL_PRICE <= spec_mean(moved, samples) <= MAX_SIGNAL_PRICE,
{
    assert((-MAX_SIGNAL_PRICE) * samples == -(MAX_SIGNAL_PRICE * samples)) by (nonlinear_arith);
    if samples > 0 {
        if moved >= 0 {
            assert(0 <= moved / (samples as int) <= MAX_SIGNAL_PRICE) by (nonlinear_arith)
                requires
                    0 <= moved <= MAX_SIGNAL_PRICE * samples,
                    samples > 0,
            ;
        } else {
            assert(0 <= (-moved) / (samples as int) <= MAX_SIGNAL_PRICE) by (nonlinear_arith)
                requires
                    0 <= -moved <= MAX_SIGNAL_PRICE * samples,
                    samples > 0,
            ;
        }
    }
}

proof fn lemma_win_rate_in_range(wins: nat, losses: nat)
    ensures
        0 <= spec_win_rate(wins, losses) <= 10_000,
{
    if wins + losses > 0 {
        assert(0 <= (wins * 10_000) as int / (wins + losses) as int <= 10_000) by (nonlinear_arith)
            requires
                wins + losses > 0,
        ;
    }
}

/// Mean of `samples` moves that add up to `moved`, rounded towards zero.
fn mean(moved: i128, samples: u64) -> (m: i64)
    requires
        -MAX_SIGNAL_PRICE * samples <= moved <= MAX_SIGNAL_PRICE * samples,
    ensures
        m == spec_mean(moved as int, samples as nat),
{
    proof {
        lemma_mean_in_range(moved as int, samples as nat);
        assert((-MAX_SIGNAL_PRICE) * samples == -(MAX_SIGNAL_PRICE * samples)) by (nonlinear_arith);
        assert(MAX_SIGNAL_PRICE * samples <= MAX_SIGNAL_PRICE * 0x1_0000_0000_0000_0000)
            by (nonlinear_arith)
            requires
                samples <= 0x1_0000_0000_0000_0000,
        ;
    }
    if samples == 0 {
        0
    } else if moved >= 0 {
        ((moved as u128) / (samples as u128)) as i64
    } else {
        let up: u128 = (-moved) as u128;
        -((up / (samples as u128)) as i64)
    }
}

/// The statistics of the records of `kind`.
pub fn signal_stats(history: &Vec<SignalRecord>, kind: SignalKind) -> (stats: SignalStats)
    requires
        records_ok(history@),
    ensures
        stats == spec_stats(history@, kind),
{
    let mut count: u64 = 0;
    let mut bullish: u64 = 0;
    let mut wins: u64 = 0;
    let mut losses: u64 = 0;
    let mut moved_1m: i128 = 0;
    let mut samples_1m: u64 = 0;
    let mut moved_5m: i128 = 0;
    let mut samples_5m: u64 = 0;
    let mut i: usize = 0;
    while i < history.len()
        invariant
            0 <= i <= history.len(),
            records_ok(history@),
            count == tally(history@.take(i as int), kind).count,
            bullish == tally(history@.take(i as int), kind).bullish,
            wins == tally(history@.take(i as int), kind).wins,
            losses == tally(history@.take(i as int), kind).losses,
            moved_1m == tally(history@.take(i as int), kind).moved_1m,
            samples_1m == tally(history@.take(i as int), kind).samples_1m,
            moved_5m == tally(history@.take(i as int), kind).moved_5m,
            samples_5m == tally(history@.take(i as int), kind).samples_5m,
        decreases history.len() - i,
    {
        let r = history[i];
        proof {
            let next = history@.take(i + 1);
            assert(next.drop_last() =~= history@.take(i as int));
            assert(records_ok(next)) by {
                assert forall|k: int| 0 <= k < next.len() implies record_ok(#[trigger] next[k]) by {
                    assert(next[k] == history@[k]);
                }
            }
            lemma_tally_bounds(next, kind);
            let t = tally(next, kind);
            assert(MAX_SIGNAL_PRICE * t.samples_1m <= MAX_SIGNAL_PRICE * 0x1_0000_0000_0000_0000)
                by (nonlinear_arith)
                requires
                    t.samples_1m <= 0x1_0000_0000_0000_0000,
            ;
            assert(MAX_SIGNAL_PRICE * t.samples_5m <= MAX_SIGNAL_PRICE * 0x1_0000_0000_0000_0000)
                by (nonlinear_arith)
                requires
                    t.samples_5m <= 0x1_0000_0000_0000_0000,
            ;
        }
        if r.signal_type == kind {
            count = count + 1;
            match r.direction {
                Direction::Bullish => {
                    bullish = bullish + 1;
                },
                Direction::Bearish => {},
            }
            match r.outcome {
                Some(Outcome::Win) => {
                    wins = wins + 1;
                },
                Some(Outcome::Loss) => {
                    losses = losses + 1;
                },
                _ => {},
            }
            match r.price_after_1m {
                Some(p) => {
                    moved_1m = moved_1m + (p as i128 - r.price as i128);
                    samples_1m = samples_1m + 1;
                },
                None => {},
            }
            match r.price_after_5m {
                Some(p) => {
                    moved_5m = moved_5m + (p as i128 - r.price as i128);
                    samples_5m = samples_5m + 1;
                },
                None => {},
            }
        }
        i += 1;
    }
    proof {
        assert(history@.take(i as int) =~= history@);
        lemma_tally_bounds(history@, kind);
        lemma_win_rate_in_range(wins as nat, losses as nat);
    }
    let decided: u128 = wins as u128 + losses as u128;
    let win_rate: u64 = if decided == 0 {
        0
    } else {
        ((wins as u128 * 10_000) / decided) as u64
    };
    SignalStats {
        count,
        bullish_count: bullish,
        bearish_count: count - bullish,
        wins,
        losses,
        avg_move_1m: mean(moved_1m, samples_1m),
        avg_move_5m: mean(moved_5m, samples_5m),
        win_rate,
    }
}

proof fn lemma_scored_ok(history: Seq<SignalRecord>, now: u64, price: i64)
    requires
        records_ok(history),
        signal_price(price),
    ensures
        records_ok(all_scored(history, now, price)),
        all_scored(history, now, price).len() == history.len(),
    decreases history.len(),
{
    if history.len() > 0 {
        let rest = history.drop_last();
        assert(records_ok(rest)) by {
            assert forall|i: int| 0 <= i < rest.len() implies record_ok(#[trigger] rest[i]) by {
                assert(rest[i] == history[i]);
            }
        }
        lemma_scored_ok(rest, now, price);
        assert(record_ok(history[history.len() - 1]));
    }
}

proof fn lemma_kept_ok(history: Seq<SignalRecord>, now: u64)
    requires
        records_ok(history),
    ensures
        records_ok(kept(history, now)),
{
    crate::retention::kept_are_entries(history, now);
    assert forall|i: int| 0 <= i < kept(history, now).len() implies record_ok(
        #[trigger] kept(history, now)[i],
    ) by {
        let r = kept(history, now)[i];
        assert(history.contains(r));
        let j = choose|j: int| 0 <= j < history.len() && history[j] == r;
        assert(record_ok(history[j]));
    }
}

impl SignalTracker {
    /// A tracker without a signal.
    pub fn new() -> (tracker: SignalTracker)
        ensures
            tracker@ == TrackerView::initial(),
            tracker@.wf(),
    {
        SignalTracker {
            recent: Vec::new(),
            history: Vec::new(),
            session_high: NO_HIGH,
            session_low: NO_LOW,
            current_price: 0,
            last_confluence_time: 0,
            last_stats_broadcast: 0,
        }
    }

    /// Puts a signal on record and reports the confluence it completes, if it
    /// completes one.
    pub fn record_signal(&mut self, now: u64, kind: SignalKind, direction: Direction, price: i64) -> (event:
        Option<ConfluenceEvent>)
        requires
            old(self)@.wf(),
            signal_price(price),
        ensures
            final(self)@ == old(self)@.record(now, kind, direction, price),
            confluence_view(event) == old(self)@.confluence_on(now, kind, direction, price),
            final(self)@.wf(),
    {
        if price > self.session_high {
            self.session_high = price;
        }
        if price < self.session_low && price > 0 {
            self.session_low = price;
        }
        self.current_price = price;
        self.recent.push(RecentSignal { timestamp: now, kind, direction, price });
        expire(&mut self.recent, now);
        self.history.push(
            SignalRecord {
                timestamp: now,
                price,
                signal_type: kind,
                direction,
                price_after_1m: None,
                price_after_5m: None,
                outcome: None,
            },
        );
        let event = detect_confluence(&self.recent, self.last_confluence_time, now, price);
        match &event {
            Some(c) => {
                self.last_confluence_time = now;
                self.history.push(
                    SignalRecord {
                        timestamp: now,
                        price,
                        signal_type: SignalKind::Confluence,
                        direction: c.direction,
                        price_after_1m: None,
                        price_after_5m: None,
                        outcome: None,
                    },
                );
                self.recent.clear();
            },
            None => {},
        }
        event
    }

    /// Scores the records at time `now` against the current price and drops
    /// those older than the history's span.
    pub fn update_signal_outcomes(&mut self, now: u64)
        requires
            old(self)@.wf(),
        ensures
            final(self)@ == old(self)@.settle(now),
            final(self)@.wf(),
    {
        let mut after: Vec<SignalRecord> = Vec::new();
        let mut i: usize = 0;
        while i < self.history.len()
            invariant
                0 <= i <= self.history.len(),
                self.history@ == old(self).history@,
                self.current_price == old(self).current_price,
                after@ == all_scored(self.history@.take(i as int), now, self.current_price),
            decreases self.history.len() - i,
        {
            proof {
                assert(self.history@.take(i + 1).drop_last() =~= self.history@.take(i as int));
            }
            after.push(scored(&self.history[i], now, self.current_price));
            i += 1;
        }
        proof {
            assert(self.history@.take(i as int) =~= self.history@);
            lemma_scored_ok(self.history@, now, self.current_price);
            lemma_kept_ok(after@, now);
        }
        expire(&mut after, now);
        self.history = after;
    }

    /// The statistics of the records of `kind`.
    pub fn calculate_signal_stats(&self, kind: SignalKind) -> (stats: SignalStats)
        requires
            self@.wf(),
        ensures
            stats == spec_stats(self@.history, kind),
    {
        signal_stats(&self.history, kind)
    }

    /// The statistics of a session that started at `session_start` and has
    /// traded `total_volume`.
    pub fn session_stats(&self, session_start: u64, total_volume: u64) -> (stats: SessionStats)
        requires
            self@.wf(),
        ensures
            stats == self@.session_stats(session_start, total_volume),
    {
        SessionStats {
            session_start,
            delta_flips: self.calculate_signal_stats(SignalKind::DeltaFlip),
            absorptions: self.calculate_signal_stats(SignalKind::Absorption),
            stacked_imbalances: self.calculate_signal_stats(SignalKind::StackedImbalance),
            confluences: self.calculate_signal_stats(SignalKind::Confluence),
            current_price: self.current_price,
            session_high: if self.session_high > NO_HIGH {
                self.session_high
            } else {
                self.current_price
            },
            session_low: if self.session_low < NO_LOW {
                self.session_low
            } else {
                self.current_price
            },
            total_volume,
        }
    }

    /// Reports the session's statistics where they are due at time `now`.
    pub fn broadcast_stats(&mut self, now: u64, session_start: u64, total_volume: u64) -> (stats: Option<
        SessionStats,
    >)
        requires
            old(self)@.wf(),
        ensures
            final(self)@ == old(self)@.reported(now),
            stats == (if old(self)@.stats_due(now) {
                Some(old(self)@.session_stats(session_start, total_volume))
            } else {
                None
            }),
            final(self)@.wf(),
    {
        if elapsed(self.last_stats_broadcast, now, STATS_PERIOD_MS) {
            let stats = self.session_stats(session_start, total_volume);
            self.last_stats_broadcast = now;
            Some(stats)
        } else {
            None
        }
    }

    /// The records, oldest first.
    pub fn records(&self) -> (records: Vec<SignalRecord>)
        ensures
            records@ == self@.history,
    {
        let mut out: Vec<SignalRecord> = Vec::new();
        let mut i: usize = 0;
        while i < self.history.len()
            invariant
                0 <= i <= self.history.len(),
                out@ == self.history@.take(i as int),
            decreases self.history.len() - i,
        {
            out.push(self.history[i]);
            proof {
                assert(self.history@.take(i + 1) =~= self.history@.take(i as int).push(
                    self.history@[i as int],
                ));
            }
            i += 1;
        }
        assert(self.history@.take(i as int) =~= self.history@);
        out
    }

    /// The price of the latest signal; zero before the first.
    pub fn current_price(&self) -> (price: i64)
        ensures
            price == self@.current_price,
    {
        self.current_price
    }
}

/// After a confluence at `now` no signal completes another before the
/// cooldown has passed.
pub proof fn confluences_keep_their_distance(
    recent: Seq<RecentSignal>,
    last_confluence_time: u64,
    now: u64,
    price: i64,
    later_recent: Seq<RecentSignal>,
    later: u64,
    later_price: i64,
)
    requires
        spec_confluence(recent, last_confluence_time, now, price).is_some(),
        spec_confluence(later_recent, now, later, later_price).is_some(),
    ensures
        later - now >= CONFLUENCE_COOLDOWN_MS,
{
}

/// A confluence has a score of two or more: the number of kinds it names.
pub proof fn confluence_counts_its_kinds(
    recent: Seq<RecentSignal>,
    last_confluence_time: u64,
    now: u64,
    price: i64,
)
    requires
        spec_confluence(recent, last_confluence_time, now, price).is_some(),
    ensures
        ({
            let c = spec_confluence(recent, last_confluence_time, now, price).unwrap();
            &&& 2 <= c.score <= 4
            &&& c.score == c.signals.len()
            &&& votes(recent, c.direction) >= 2
        }),
{
}

/// The statistics are a matter of the records and the session's figures
/// alone: two trackers that agree on them report the same.
pub proof fn stats_depend_on_records_alone(a: TrackerView, b: TrackerView, session_start: u64, total_volume: u64)
    requires
        a.history == b.history,
        a.session_high == b.session_high,
        a.session_low == b.session_low,
        a.current_price == b.current_price,
    ensures
        a.session_stats(session_start, total_volume) == b.session_stats(session_start, total_volume),
{
}

/// Reporting the statistics changes nothing but the time of the last
/// report. So a report made again, with no signal and no scoring in between,
/// gives what the first gave, field for field.
pub proof fn reporting_leaves_the_statistics(
    tracker: TrackerView,
    now: u64,
    later: u64,
    session_start: u64,
    total_volume: u64,
)
    ensures
        tracker.reported(now) == (TrackerView {
            last_stats_broadcast: tracker.reported(now).last_stats_broadcast,
            ..tracker
        }),
        tracker.stats_due(now) ==> tracker.reported(now).last_stats_broadcast == now,
        tracker.reported(now).session_stats(session_start, total_volume) == tracker.session_stats(
            session_start,
            total_volume,
        ),
        tracker.reported(now).reported(later).session_stats(session_start, total_volume)
            == tracker.session_stats(session_start, total_volume),
{
}

/// The time of the latest confluence moves only when a signal completes a
/// confluence, and a signal completes one only when the cooldown has passed
/// since that time. So between any two confluences the cooldown has passed.
pub proof fn confluence_time_is_the_latest(
    tracker: TrackerView,
    now: u64,
    kind: SignalKind,
    direction: Direction,
    price: i64,
)
    ensures
        tracker.confluence_on(now, kind, direction, price).is_some() ==> now
            - tracker.last_confluence_time >= CONFLUENCE_COOLDOWN_MS && tracker.record(
            now,
            kind,
            direction,
            price,
        ).last_confluence_time == now && tracker.confluence_on(
            now,
            kind,
            direction,
            price,
        ).unwrap().timestamp == now,
        tracker.confluence_on(now, kind, direction, price).is_none() ==> tracker.record(
            now,
            kind,
            direction,
            price,
        ).last_confluence_time == tracker.last_confluence_time,
        tracker.settle(now).last_confluence_time == tracker.last_confluence_time,
        tracker.reported(now).last_confluence_time == tracker.last_confluence_time,
{
}

} // verus!
