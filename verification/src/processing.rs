//! The engine: takes trades in, and on every tick closes the window they
//! fell into, runs the detectors over it and hands out the artifacts.

use vstd::prelude::*;
use crate::absorption::{
    detect_absorption, expiry_keeps_zones_in_order, spec_abs, spec_cvd_trend, spec_plan,
    spec_plan_event, spec_zone_reports, spec_zones_after, zone_reports, zones_wf, AbsorptionPlan,
    VolumeSnapshot, Zone,
};
use crate::cvd::{cvd_5s_ago, spec_cvd_5s_ago, CvdSample, FlipState};
use crate::price::valid_price;
use crate::profile::{ProfileView, VolumeProfile, MAX_SESSION_VOLUME};
use crate::retention::{
    expire, expiry_keeps_time_order, in_time_order, kept, latest_entry_keeps_time_order,
};
use crate::signals::{signal_price, SignalTracker, TrackerView};
use crate::stacked::{
    detect_stacked_imbalances, mid_price, spec_best_stack, spec_mid_price, spec_point_buckets, Stack,
    StackState,
};
use crate::types::{
    confluence_view, message_views, AbsorptionEvent, AbsorptionZone, Bubble, CVDPoint,
    ConfluenceEvent, ConfluenceView, DeltaFlip, Direction, MessageView, SessionStats, Side,
    SignalKind, SignalRecord, StackedImbalance, Trade, VolumeProfileLevel, WsMessage,
};
use crate::window::{
    all_well_formed, dominant_side_has_volume, net_volume, prices_valid, spec_summarize, summarize,
    window_volume, WindowSummary,
};

verus! {

/// What one tick hands out.
pub struct TickView {
    pub bubble: Option<Bubble>,
    pub cvd_point: Option<CVDPoint>,
    pub delta_flip: Option<DeltaFlip>,
    pub absorption: Option<AbsorptionEvent>,
    pub zones: Seq<AbsorptionZone>,
    pub stacked: Option<StackedImbalance>,
    pub profile: Option<Seq<VolumeProfileLevel>>,
    pub confluence: Option<ConfluenceView>,
    pub stats: Option<SessionStats>,
}

/// `messages` with `message` at the end where there is one.
pub open spec fn with_message(messages: Seq<MessageView>, message: Option<MessageView>) -> Seq<
    MessageView,
> {
    match message {
        Some(m) => messages.push(m),
        None => messages,
    }
}

impl TickView {
    /// A tick that hands out nothing.
    pub open spec fn silent() -> TickView {
        TickView {
            bubble: None,
            cvd_point: None,
            delta_flip: None,
            absorption: None,
            zones: Seq::empty(),
            stacked: None,
            profile: None,
            confluence: None,
            stats: None,
        }
    }

    /// The artifacts of the tick as messages, in the order they go out:
    /// bubble, delta point, delta flip, absorption, absorption zones, stacked
    /// imbalance, volume profile, confluence, session statistics.
    pub open spec fn messages(self) -> Seq<MessageView> {
        let m0 = Seq::<MessageView>::empty();
        let m1 = with_message(
            m0,
            match self.bubble {
                Some(b) => Some(MessageView::Bubble(b)),
                None => None,
            },
        );
        let m2 = with_message(
            m1,
            match self.cvd_point {
                Some(p) => Some(MessageView::CVDPoint(p)),
                None => None,
            },
        );
        let m3 = with_message(
            m2,
            match self.delta_flip {
                Some(f) => Some(MessageView::DeltaFlip(f)),
                None => None,
            },
        );
        let m4 = with_message(
            m3,
            match self.absorption {
                Some(e) => Some(MessageView::Absorption(e)),
                None => None,
            },
        );
        let m5 = with_message(
            m4,
            if self.zones.len() > 0 {
                Some(MessageView::AbsorptionZones { zones: self.zones })
            } else {
                None
            },
        );
        let m6 = with_message(
            m5,
            match self.stacked {
                Some(s) => Some(MessageView::StackedImbalance(s)),
                None => None,
            },
        );
        let m7 = with_message(
            m6,
            match self.profile {
                Some(levels) => Some(MessageView::VolumeProfile { levels }),
                None => None,
            },
        );
        let m8 = with_message(
            m7,
            match self.confluence {
                Some(c) => Some(MessageView::Confluence(c)),
                None => None,
            },
        );
        with_message(
            m8,
            match self.stats {
                Some(s) => Some(MessageView::SessionStats(s)),
                None => None,
            },
        )
    }
}

/// The engine as a value.
pub struct EngineView {
    pub buffer: Seq<Trade>,
    pub dropped: u64,
    pub bubble_counter: u64,
    pub cvd: i64,
    pub cvd_5s_ago: i64,
    pub profile: ProfileView,
    pub volume_history: Seq<VolumeSnapshot>,
    pub cvd_history: Seq<CvdSample>,
    pub zones: Seq<Zone>,
    pub flips: FlipState,
    pub stacks: StackState,
    pub signals: TrackerView,
    pub session_start: u64,
    pub clock: u64,
}

/// The first of two confluences that is there.
pub open spec fn first_of(a: Option<ConfluenceView>, b: Option<ConfluenceView>) -> Option<
    ConfluenceView,
> {
    if a.is_some() {
        a
    } else {
        b
    }
}

impl EngineView {
    /// An engine that starts its session at time `now`.
    pub open spec fn initial(now: u64) -> EngineView {
        EngineView {
            buffer: Seq::empty(),
            dropped: 0,
            bubble_counter: 0,
            cvd: 0,
            cvd_5s_ago: 0,
            profile: ProfileView::empty(),
            volume_history: Seq::empty(),
            cvd_history: Seq::empty(),
            zones: Seq::empty(),
            flips: FlipState::initial(),
            stacks: StackState::initial(),
            signals: TrackerView::initial(),
            session_start: now,
            clock: now,
        }
    }

    /// Volume of the windows closed so far.
    pub open spec fn closed_volume(self) -> int {
        self.profile.volume() - window_volume(self.buffer)
    }

    /// An engine in order: its profile and its zones are, its window holds well-formed
    /// trades only, the delta is the session's buy volume less its sell volume,
    /// neither the bubbles nor what a zone absorbed outnumber the volume of the
    /// windows closed, and both histories stand in the order their entries were
    /// taken, none of them later than the clock.
    pub open spec fn wf(self) -> bool {
        &&& self.profile.wf()
        &&& all_well_formed(self.buffer)
        &&& self.cvd == self.profile.buy_volume - self.profile.sell_volume
        &&& self.bubble_counter <= self.closed_volume()
        &&& zones_wf(self.zones, self.clock, self.closed_volume())
        &&& self.signals.wf()
        &&& in_time_order(self.volume_history, self.clock)
        &&& in_time_order(self.cvd_history, self.clock)
    }

    /// The count of dropped trades after one more: it stops at the largest
    /// number it can hold.
    pub open spec fn one_more(count: u64) -> u64 {
        if count < u64::MAX {
            (count + 1) as u64
        } else {
            count
        }
    }

    /// Can the engine take `trade` in? It can take every malformed trade,
    /// which it drops, and every other as long as the session's volume stays
    /// within what a session can hold.
    pub open spec fn has_room(self, trade: Trade) -> bool {
        trade.well_formed() ==> self.profile.volume() + trade.size <= MAX_SESSION_VOLUME
    }

    /// The engine after `trade` came in: a malformed trade is dropped and
    /// counted; any other joins the window, moves the delta by its size, up
    /// for a buy and down for a sell, and adds to its bucket of the profile.
    pub open spec fn ingest(self, trade: Trade) -> EngineView {
        if !trade.well_formed() {
            EngineView { dropped: Self::one_more(self.dropped), ..self }
        } else {
            EngineView {
                buffer: self.buffer.push(trade),
                cvd: (if trade.side == Side::Buy {
                    self.cvd + trade.size
                } else {
                    self.cvd - trade.size
                }) as i64,
                profile: self.profile.update(trade.price, trade.size, trade.side),
                ..self
            }
        }
    }

    /// The engine after a trade that the feed could not make sense of, one
    /// with no price or an unknown side: the trade is counted as dropped.
    pub open spec fn unreadable(self) -> EngineView {
        EngineView { dropped: Self::one_more(self.dropped), ..self }
    }

    /// The time that a tick at `now` works with: time never runs backwards.
    pub open spec fn time(self, now: u64) -> u64 {
        if now > self.clock {
            now
        } else {
            self.clock
        }
    }

    /// The engine after what is too old at `now` has been dropped: zones by
    /// their peak strength, windows from the volume history, samples from
    /// the delta history.
    pub open spec fn expired(self, now: u64) -> EngineView {
        EngineView {
            zones: kept(self.zones, self.time(now)),
            volume_history: kept(self.volume_history, self.time(now)),
            cvd_history: kept(self.cvd_history, self.time(now)),
            clock: self.time(now),
            ..self
        }
    }

    /// What the window's trades add up to.
    pub open spec fn summary(self) -> WindowSummary {
        spec_summarize(self.buffer)
    }

    /// The volume history with the window in it.
    pub open spec fn volume_history_after(self) -> Seq<VolumeSnapshot> {
        self.volume_history.push(
            VolumeSnapshot {
                timestamp: self.clock,
                volume: self.summary().total_volume,
                delta: self.summary().delta,
            },
        )
    }

    /// The delta history with the window in it.
    pub open spec fn cvd_history_after(self) -> Seq<CvdSample> {
        self.cvd_history.push(CvdSample { timestamp: self.clock, cvd: self.cvd })
    }

    /// The delta of five seconds ago, as the window's detectors see it.
    pub open spec fn trend_base(self) -> i64 {
        spec_cvd_5s_ago(self.cvd_history_after(), self.clock, self.cvd)
    }

    /// The window's bubble.
    pub open spec fn bubble(self) -> Bubble {
        Bubble {
            id: self.bubble_counter,
            price: self.summary().price,
            size: self.summary().dominant_volume,
            side: self.summary().dominant_side,
            timestamp: self.clock,
            is_significant_imbalance: self.summary().is_significant_imbalance,
        }
    }

    /// The window's point of the delta curve.
    pub open spec fn cvd_point(self) -> CVDPoint {
        CVDPoint { timestamp: self.clock, value: self.cvd }
    }

    /// The window's delta flip, if it has one.
    pub open spec fn delta_flip(self) -> Option<DeltaFlip> {
        self.flips.spec_flip(self.clock, self.cvd, self.trend_base())
    }

    /// The signals once the delta flip is on record, at the window's price.
    pub open spec fn signals_after_flip(self) -> TrackerView {
        match self.delta_flip() {
            Some(f) => self.signals.record(
                self.clock,
                SignalKind::DeltaFlip,
                f.direction,
                self.summary().price,
            ),
            None => self.signals,
        }
    }

    /// The confluence that the delta flip completes, if it does.
    pub open spec fn confluence_on_flip(self) -> Option<ConfluenceView> {
        match self.delta_flip() {
            Some(f) => self.signals.confluence_on(
                self.clock,
                SignalKind::DeltaFlip,
                f.direction,
                self.summary().price,
            ),
            None => None,
        }
    }

    /// The absorption that the window's figures call for, if they do.
    pub open spec fn absorption_plan(self) -> Option<AbsorptionPlan> {
        spec_plan(
            self.summary().delta,
            self.summary().price_change,
            self.summary().price,
            self.volume_history_after(),
            self.clock,
            self.cvd,
            self.trend_base(),
            self.profile.landmarks(),
        )
    }

    /// The zones once the window's absorption is booked.
    pub open spec fn zones_after(self) -> Seq<Zone> {
        spec_zones_after(self.zones, self.absorption_plan(), self.clock)
    }

    /// The window's absorption event, if it has one.
    pub open spec fn absorption_event(self) -> Option<AbsorptionEvent> {
        spec_plan_event(
            self.zones,
            self.absorption_plan(),
            self.summary().delta,
            self.summary().price_change,
            self.clock,
        )
    }

    /// The signals once the absorption is on record too, at its zone's price.
    pub open spec fn signals_after_absorption(self) -> TrackerView {
        match self.absorption_event() {
            Some(e) => self.signals_after_flip().record(
                self.clock,
                SignalKind::Absorption,
                e.absorption_type.spec_direction(),
                e.price,
            ),
            None => self.signals_after_flip(),
        }
    }

    /// The confluence that the absorption completes, if it does.
    pub open spec fn confluence_on_absorption(self) -> Option<ConfluenceView> {
        match self.absorption_event() {
            Some(e) => self.signals_after_flip().confluence_on(
                self.clock,
                SignalKind::Absorption,
                e.absorption_type.spec_direction(),
                e.price,
            ),
            None => None,
        }
    }

    /// The zones that subscribers are told of.
    pub open spec fn zone_reports(self) -> Seq<AbsorptionZone> {
        spec_zone_reports(
            self.zones_after(),
            self.profile.landmarks(),
            spec_cvd_trend(self.cvd, self.trend_base()),
        )
    }

    /// The longest run of dominated one-point buckets of the profile.
    pub open spec fn stack(self) -> Option<Stack> {
        spec_best_stack(spec_point_buckets(self.profile.levels))
    }

    /// The window's stacked imbalance, if it has one.
    pub open spec fn stacked(self) -> Option<StackedImbalance> {
        self.stacks.spec_detect(self.clock, self.stack())
    }

    /// The signals once the stacked imbalance is on record too, at the middle
    /// of its range.
    pub open spec fn signals_after_stack(self) -> TrackerView {
        match self.stacked() {
            Some(s) => self.signals_after_absorption().record(
                self.clock,
                SignalKind::StackedImbalance,
                s.side.spec_direction(),
                spec_mid_price(s),
            ),
            None => self.signals_after_absorption(),
        }
    }

    /// The confluence that the stacked imbalance completes, if it does.
    pub open spec fn confluence_on_stack(self) -> Option<ConfluenceView> {
        match self.stacked() {
            Some(s) => self.signals_after_absorption().confluence_on(
                self.clock,
                SignalKind::StackedImbalance,
                s.side.spec_direction(),
                spec_mid_price(s),
            ),
            None => None,
        }
    }

    /// The window's confluence, if it has one: the first that one of its
    /// signals completes.
    pub open spec fn confluence(self) -> Option<ConfluenceView> {
        first_of(
            first_of(self.confluence_on_flip(), self.confluence_on_absorption()),
            self.confluence_on_stack(),
        )
    }

    /// The signals once the window's signals are on record and every record
    /// has been scored.
    pub open spec fn signals_settled(self) -> TrackerView {
        self.signals_after_stack().settle(self.clock)
    }

    /// The session's statistics, where they are due.
    pub open spec fn stats(self) -> Option<SessionStats> {
        if self.signals_settled().stats_due(self.clock) {
            Some(
                self.signals_settled().session_stats(
                    self.session_start,
                    self.profile.volume() as u64,
                ),
            )
        } else {
            None
        }
    }

    /// The engine after its window is closed.
    pub open spec fn closed(self) -> EngineView {
        EngineView {
            buffer: Seq::empty(),
            dropped: self.dropped,
            bubble_counter: (self.bubble_counter + 1) as u64,
            cvd: self.cvd,
            cvd_5s_ago: self.trend_base(),
            profile: self.profile,
            volume_history: self.volume_history_after(),
            cvd_history: self.cvd_history_after(),
            zones: self.zones_after(),
            flips: self.flips.spec_next(self.clock, self.cvd),
            stacks: self.stacks.spec_next(self.clock, self.stack()),
            signals: self.signals_settled().reported(self.clock),
            session_start: self.session_start,
            clock: self.clock,
        }
    }

    /// What closing the window hands out.
    pub open spec fn closing_output(self) -> TickView {
        TickView {
            bubble: Some(self.bubble()),
            cvd_point: Some(self.cvd_point()),
            delta_flip: self.delta_flip(),
            absorption: self.absorption_event(),
            zones: self.zone_reports(),
            stacked: self.stacked(),
            profile: Some(self.profile.levels),
            confluence: self.confluence(),
            stats: self.stats(),
        }
    }

    /// The engine after a tick at `now`: what is too old is dropped, and a
    /// window that holds trades is closed.
    pub open spec fn tick(self, now: u64) -> EngineView {
        if self.buffer.len() == 0 {
            self.expired(now)
        } else {
            self.expired(now).closed()
        }
    }

    /// What a tick at `now` hands out: nothing where the window is empty.
    pub open spec fn tick_output(self, now: u64) -> TickView {
        if self.buffer.len() == 0 {
            TickView::silent()
        } else {
            self.expired(now).closing_output()
        }
    }
}

/// The engine.
pub struct ProcessingState {
    trade_buffer: Vec<Trade>,
    dropped: u64,
    bubble_counter: u64,
    cvd: i64,
    cvd_5s_ago: i64,
    volume_profile: VolumeProfile,
    volume_history: Vec<VolumeSnapshot>,
    cvd_history: Vec<CvdSample>,
    absorption_zones: Vec<Zone>,
    flips: FlipState,
    stacks: StackState,
    signals: SignalTracker,
    session_start: u64,
    clock: u64,
}

impl View for ProcessingState {
    type V = EngineView;

    closed spec fn view(&self) -> EngineView {
        EngineView {
            buffer: self.trade_buffer@,
            dropped: self.dropped,
            bubble_counter: self.bubble_counter,
            cvd: self.cvd,
            cvd_5s_ago: self.cvd_5s_ago,
            profile: self.volume_profile@,
            volume_history: self.volume_history@,
            cvd_history: self.cvd_history@,
            zones: self.absorption_zones@,
            flips: self.flips,
            stacks: self.stacks,
            signals: self.signals@,
            session_start: self.session_start,
            clock: self.clock,
        }
    }
}

proof fn lemma_window_grows(buffer: Seq<Trade>, trade: Trade)
    ensures
        window_volume(buffer.push(trade)) == window_volume(buffer) + trade.size,
        net_volume(buffer.push(trade)) == net_volume(buffer) + if trade.side == Side::Buy {
            trade.size as int
        } else {
            -(trade.size as int)
        },
{
    assert(buffer.push(trade).drop_last() =~= buffer);
}

proof fn lemma_zones_have_room(zones: Seq<Zone>, clock: u64, cap: int, more: int)
    requires
        zones_wf(zones, clock, cap),
        cap <= more,
    ensures
        zones_wf(zones, clock, more),
{
    assert forall|i: int| 0 <= i < zones.len() implies (#[trigger] zones[i]).ok(clock, more) by {
        assert(zones[i].ok(clock, cap));
    }
}

/// Adds `message` to the messages going out.
fn emit(out: &mut Vec<WsMessage>, message: WsMessage)
    ensures
        message_views(final(out)@) == message_views(old(out)@).push(message@),
{
    out.push(message);
    assert(message_views(out@) =~= message_views(old(out)@).push(message@));
}

/// Puts a signal on record and keeps the first confluence of the window.
fn note_signal(
    signals: &mut SignalTracker,
    confluence: &mut Option<ConfluenceEvent>,
    now: u64,
    kind: SignalKind,
    direction: Direction,
    price: i64,
)
    requires
        old(signals)@.wf(),
        signal_price(price),
    ensures
        final(signals)@ == old(signals)@.record(now, kind, direction, price),
        confluence_view(*final(confluence)) == first_of(
            confluence_view(*old(confluence)),
            old(signals)@.confluence_on(now, kind, direction, price),
        ),
        final(signals)@.wf(),
{
    let c = signals.record_signal(now, kind, direction, price);
    if confluence.is_none() {
        *confluence = c;
    }
}

impl ProcessingState {
    /// An engine that starts its session at time `now`.
    pub fn new(now: u64) -> (state: ProcessingState)
        ensures
            state@ == EngineView::initial(now),
            state@.wf(),
    {
        ProcessingState {
            trade_buffer: Vec::new(),
            dropped: 0,
            bubble_counter: 0,
            cvd: 0,
            cvd_5s_ago: 0,
            volume_profile: VolumeProfile::new(),
            volume_history: Vec::new(),
            cvd_history: Vec::new(),
            absorption_zones: Vec::new(),
            flips: FlipState::new(),
            stacks: StackState::new(),
            signals: SignalTracker::new(),
            session_start: now,
            clock: now,
        }
    }

    /// Can the engine take `trade` in?
    pub fn has_room(&self, trade: &Trade) -> (room: bool)
        requires
            self@.wf(),
        ensures
            room == self@.has_room(*trade),
    {
        !trade.is_well_formed() || self.volume_profile.buy_volume()
            + self.volume_profile.sell_volume() <= MAX_SESSION_VOLUME - trade.size as u64
    }

    /// Takes a trade into the window. A malformed trade, one of no size or at
    /// a price out of range, is dropped and counted; the result says whether
    /// the trade was taken. A trade taken moves the delta by its size, up for
    /// a buy and down for a sell.
    pub fn add_trade(&mut self, trade: Trade) -> (taken: bool)
        requires
            old(self)@.wf(),
            old(self)@.has_room(trade),
        ensures
            taken == trade.well_formed(),
            final(self)@ == old(self)@.ingest(trade),
            final(self)@.wf(),
            taken ==> final(self)@.cvd == old(self)@.cvd + trade.signed_size(),
            !taken ==> final(self)@.cvd == old(self)@.cvd,
    {
        if !trade.is_well_formed() {
            if self.dropped < u64::MAX {
                self.dropped = self.dropped + 1;
            }
            return false;
        }
        proof {
            lemma_window_grows(self.trade_buffer@, trade);
        }
        match trade.side {
            Side::Buy => {
                self.cvd = self.cvd + trade.size as i64;
            },
            Side::Sell => {
                self.cvd = self.cvd - trade.size as i64;
            },
        }
        self.volume_profile.update(trade.price, trade.size, trade.side);
        self.trade_buffer.push(trade);
        proof {
            assert(all_well_formed(self.trade_buffer@)) by {
                assert forall|i: int| 0 <= i < self.trade_buffer@.len() implies (
                #[trigger] self.trade_buffer@[i]).well_formed() by {
                    if i < old(self).trade_buffer@.len() {
                        assert(old(self).trade_buffer@[i].well_formed());
                    }
                }
            }
        }
        true
    }

    /// Counts a trade that the feed could not make sense of, one with no
    /// price or an unknown side, as dropped.
    pub fn drop_unreadable(&mut self)
        ensures
            final(self)@ == old(self)@.unreadable(),
            old(self)@.wf() ==> final(self)@.wf(),
    {
        if self.dropped < u64::MAX {
            self.dropped = self.dropped + 1;
        }
    }

    /// Drops what is too old at time `now`.
    fn expire_all(&mut self, now: u64)
        requires
            old(self)@.wf(),
        ensures
            final(self)@ == old(self)@.expired(now),
            final(self)@.wf(),
    {
        let t = if now > self.clock {
            now
        } else {
            self.clock
        };
        proof {
            expiry_keeps_zones_in_order(
                self.absorption_zones@,
                self.clock,
                self@.closed_volume(),
                t,
            );
            expiry_keeps_time_order(self.volume_history@, self.clock, t, t);
            expiry_keeps_time_order(self.cvd_history@, self.clock, t, t);
        }
        self.clock = t;
        expire(&mut self.absorption_zones, t);
        expire(&mut self.volume_history, t);
        expire(&mut self.cvd_history, t);
    }

    /// Adds up the window and enters it in the two histories.
    fn sample_window(&mut self) -> (w: WindowSummary)
        requires
            old(self)@.wf(),
            old(self)@.buffer.len() > 0,
        ensures
            w == old(self)@.summary(),
            valid_price(w.price as int),
            1 <= w.total_volume == window_volume(old(self)@.buffer),
            spec_abs(w.delta) <= w.total_volume,
            final(self)@ == (EngineView {
                volume_history: old(self)@.volume_history_after(),
                cvd_history: old(self)@.cvd_history_after(),
                cvd_5s_ago: old(self)@.trend_base(),
                ..old(self)@
            }),
    {
        proof {
            dominant_side_has_volume(self.trade_buffer@);
            assert(prices_valid(self.trade_buffer@)) by {
                assert forall|i: int| 0 <= i < self.trade_buffer@.len() implies valid_price(
                    (#[trigger] self.trade_buffer@[i]).price as int,
                ) by {
                    assert(self.trade_buffer@[i].well_formed());
                }
            }
        }
        let w = summarize(&self.trade_buffer);
        self.volume_history.push(
            VolumeSnapshot { timestamp: self.clock, volume: w.total_volume, delta: w.delta },
        );
        self.cvd_history.push(CvdSample { timestamp: self.clock, cvd: self.cvd });
        self.cvd_5s_ago = cvd_5s_ago(&self.cvd_history, self.clock, self.cvd);
        w
    }

    /// Looks for a delta flip and puts it on record.
    fn detect_flip(
        &mut self,
        w: &WindowSummary,
        out: &mut Vec<WsMessage>,
        confluence: &mut Option<ConfluenceEvent>,
        Ghost(start): Ghost<EngineView>,
    )
        requires
            *w == start.summary(),
            valid_price(w.price as int),
            old(self)@.flips == start.flips,
            old(self)@.signals == start.signals,
            old(self)@.clock == start.clock,
            old(self)@.cvd == start.cvd,
            old(self)@.cvd_5s_ago == start.trend_base(),
            old(self)@.signals.wf(),
            old(confluence).is_none(),
        ensures
            final(self)@ == (EngineView {
                flips: start.flips.spec_next(start.clock, start.cvd),
                signals: start.signals_after_flip(),
                ..old(self)@
            }),
            final(self)@.signals.wf(),
            confluence_view(*final(confluence)) == start.confluence_on_flip(),
            message_views(final(out)@) == with_message(
                message_views(old(out)@),
                match start.delta_flip() {
                    Some(f) => Some(MessageView::DeltaFlip(f)),
                    None => None,
                },
            ),
    {
        let flip = self.flips.detect(self.clock, self.cvd, self.cvd_5s_ago);
        match flip {
            Some(f) => {
                emit(out, WsMessage::DeltaFlip(f));
                note_signal(
                    &mut self.signals,
                    confluence,
                    self.clock,
                    SignalKind::DeltaFlip,
                    f.direction,
                    w.price,
                );
            },
            None => {},
        }
    }

    /// Looks for an absorption, books it, puts it on record, and tells of the
    /// zones.
    fn detect_absorbed(
        &mut self,
        w: &WindowSummary,
        out: &mut Vec<WsMessage>,
        confluence: &mut Option<ConfluenceEvent>,
        Ghost(start): Ghost<EngineView>,
    )
        requires
            start.profile.wf(),
            *w == start.summary(),
            valid_price(w.price as int),
            spec_abs(w.delta) <= w.total_volume == window_volume(start.buffer),
            start.profile.volume() <= MAX_SESSION_VOLUME,
            0 <= start.closed_volume(),
            zones_wf(start.zones, start.clock, start.closed_volume()),
            old(self)@.zones == start.zones,
            old(self)@.volume_history == start.volume_history_after(),
            old(self)@.profile == start.profile,
            old(self)@.signals == start.signals_after_flip(),
            old(self)@.clock == start.clock,
            old(self)@.cvd == start.cvd,
            old(self)@.cvd_5s_ago == start.trend_base(),
            old(self)@.signals.wf(),
            confluence_view(*old(confluence)) == start.confluence_on_flip(),
        ensures
            final(self)@ == (EngineView {
                zones: start.zones_after(),
                signals: start.signals_after_absorption(),
                ..old(self)@
            }),
            final(self)@.signals.wf(),
            zones_wf(final(self)@.zones, start.clock, start.profile.volume()),
            confluence_view(*final(confluence)) == first_of(
                start.confluence_on_flip(),
                start.confluence_on_absorption(),
            ),
            message_views(final(out)@) == with_message(
                with_message(
                    message_views(old(out)@),
                    match start.absorption_event() {
                        Some(e) => Some(MessageView::Absorption(e)),
                        None => None,
                    },
                ),
                if start.zone_reports().len() > 0 {
                    Some(MessageView::AbsorptionZones { zones: start.zone_reports() })
                } else {
                    None
                },
            ),
    {
        let marks = self.volume_profile.landmarks();
        let event = detect_absorption(
            &mut self.absorption_zones,
            &self.volume_history,
            &marks,
            w.delta,
            w.price_change,
            w.price,
            self.clock,
            self.cvd,
            self.cvd_5s_ago,
        );
        proof {
            lemma_zones_have_room(
                self.absorption_zones@,
                self.clock,
                start.closed_volume() + spec_abs(w.delta),
                start.profile.volume(),
            );
        }
        match event {
            Some(e) => {
                emit(out, WsMessage::Absorption(e));
                note_signal(
                    &mut self.signals,
                    confluence,
                    self.clock,
                    SignalKind::Absorption,
                    e.absorption_type.direction(),
                    e.price,
                );
            },
            None => {},
        }
        let zones = zone_reports(&self.absorption_zones, &marks, self.cvd, self.cvd_5s_ago);
        if zones.len() > 0 {
            emit(out, WsMessage::AbsorptionZones { zones });
        }
    }

    /// Looks for a stacked imbalance and puts it on record.
    fn detect_stacked(
        &mut self,
        out: &mut Vec<WsMessage>,
        confluence: &mut Option<ConfluenceEvent>,
        Ghost(start): Ghost<EngineView>,
    )
        requires
            start.profile.wf(),
            old(self)@.stacks == start.stacks,
            old(self)@.profile == start.profile,
            old(self)@.signals == start.signals_after_absorption(),
            old(self)@.clock == start.clock,
            old(self)@.signals.wf(),
            confluence_view(*old(confluence)) == first_of(
                start.confluence_on_flip(),
                start.confluence_on_absorption(),
            ),
        ensures
            final(self)@ == (EngineView {
                stacks: start.stacks.spec_next(start.clock, start.stack()),
                signals: start.signals_after_stack(),
                ..old(self)@
            }),
            final(self)@.signals.wf(),
            confluence_view(*final(confluence)) == start.confluence(),
            message_views(final(out)@) == with_message(
                message_views(old(out)@),
                match start.stacked() {
                    Some(s) => Some(MessageView::StackedImbalance(s)),
                    None => None,
                },
            ),
    {
        let stacked = detect_stacked_imbalances(&mut self.stacks, &self.volume_profile, self.clock);
        match stacked {
            Some(s) => {
                emit(out, WsMessage::StackedImbalance(s));
                note_signal(
                    &mut self.signals,
                    confluence,
                    self.clock,
                    SignalKind::StackedImbalance,
                    s.side.direction(),
                    mid_price(&s),
                );
            },
            None => {},
        }
    }

    /// Closes the window and hands out its artifacts in their order.
    fn close_window(&mut self) -> (out: Vec<WsMessage>)
        requires
            old(self)@.wf(),
            old(self)@.buffer.len() > 0,
        ensures
            final(self)@ == old(self)@.closed(),
            message_views(out@) == old(self)@.closing_output().messages(),
            final(self)@.wf(),
    {
        let ghost start = self@;
        let w = self.sample_window();
        let mut out: Vec<WsMessage> = Vec::new();
        assert(message_views(out@) =~= Seq::<MessageView>::empty());
        emit(
            &mut out,
            WsMessage::Bubble(
                Bubble {
                    id: self.bubble_counter,
                    price: w.price,
                    size: w.dominant_volume,
                    side: w.dominant_side,
                    timestamp: self.clock,
                    is_significant_imbalance: w.is_significant_imbalance,
                },
            ),
        );
        emit(&mut out, WsMessage::CVDPoint(CVDPoint { timestamp: self.clock, value: self.cvd }));
        let mut confluence: Option<ConfluenceEvent> = None;
        self.detect_flip(&w, &mut out, &mut confluence, Ghost(start));
        self.detect_absorbed(&w, &mut out, &mut confluence, Ghost(start));
        self.detect_stacked(&mut out, &mut confluence, Ghost(start));
        emit(&mut out, WsMessage::VolumeProfile { levels: self.volume_profile.levels() });
        match confluence {
            Some(c) => {
                emit(&mut out, WsMessage::Confluence(c));
            },
            None => {},
        }
        self.signals.update_signal_outcomes(self.clock);
        let total = self.volume_profile.buy_volume() + self.volume_profile.sell_volume();
        match self.signals.broadcast_stats(self.clock, self.session_start, total) {
            Some(stats) => {
                emit(&mut out, WsMessage::SessionStats(stats));
            },
            None => {},
        }
        self.bubble_counter = self.bubble_counter + 1;
        self.trade_buffer.clear();
        proof {
            assert(window_volume(self.trade_buffer@) == 0);
            latest_entry_keeps_time_order(
                start.volume_history,
                start.clock,
                VolumeSnapshot {
                    timestamp: start.clock,
                    volume: start.summary().total_volume,
                    delta: start.summary().delta,
                },
            );
            latest_entry_keeps_time_order(
                start.cvd_history,
                start.clock,
                CvdSample { timestamp: start.clock, cvd: start.cvd },
            );
        }
        out
    }

    /// Closes the window at time `now` and hands out its artifacts in their
    /// order. With no trade in the window it drops what is too old and hands
    /// out nothing.
    pub fn process_buffer(&mut self, now: u64) -> (out: Vec<WsMessage>)
        requires
            old(self)@.wf(),
        ensures
            final(self)@ == old(self)@.tick(now),
            message_views(out@) == old(self)@.tick_output(now).messages(),
            final(self)@.wf(),
    {
        self.expire_all(now);
        if self.trade_buffer.len() == 0 {
            let out: Vec<WsMessage> = Vec::new();
            assert(message_views(out@) =~= Seq::<MessageView>::empty());
            out
        } else {
            self.close_window()
        }
    }

    /// The volume profile as a message.
    pub fn send_volume_profile(&self) -> (message: WsMessage)
        ensures
            message@ == (MessageView::VolumeProfile { levels: self@.profile.levels }),
    {
        WsMessage::VolumeProfile { levels: self.volume_profile.levels() }
    }

    /// The session's statistics as they stand.
    pub fn session_stats_snapshot(&self) -> (stats: SessionStats)
        requires
            self@.wf(),
        ensures
            stats == self@.signals.session_stats(
                self@.session_start,
                self@.profile.volume() as u64,
            ),
    {
        let total = self.volume_profile.buy_volume() + self.volume_profile.sell_volume();
        self.signals.session_stats(self.session_start, total)
    }

    /// Number of malformed trades dropped so far.
    pub fn dropped_trades(&self) -> (count: u64)
        ensures
            count == self@.dropped,
    {
        self.dropped
    }

    /// The running cumulative volume delta.
    pub fn cvd(&self) -> (cvd: i64)
        ensures
            cvd == self@.cvd,
    {
        self.cvd
    }

    /// The delta of five seconds before the latest window.
    pub fn cvd_5s_ago(&self) -> (cvd: i64)
        ensures
            cvd == self@.cvd_5s_ago,
    {
        self.cvd_5s_ago
    }

    /// The delta trend: how far the delta has come since five seconds before
    /// the latest window.
    pub fn get_cvd_trend(&self) -> (trend: i128)
        ensures
            trend == spec_cvd_trend(self@.cvd, self@.cvd_5s_ago),
    {
        self.cvd as i128 - self.cvd_5s_ago as i128
    }

    /// The volume profile.
    pub fn volume_profile(&self) -> (profile: &VolumeProfile)
        ensures
            profile@ == self@.profile,
    {
        &self.volume_profile
    }

    /// Volume of the session so far, both sides together.
    pub fn session_volume(&self) -> (volume: u64)
        requires
            self@.wf(),
        ensures
            volume == self@.profile.volume(),
    {
        self.volume_profile.buy_volume() + self.volume_profile.sell_volume()
    }

    /// Number of trades in the window.
    pub fn buffered(&self) -> (n: usize)
        ensures
            n == self@.buffer.len(),
    {
        self.trade_buffer.len()
    }

    /// The absorption zones, in the order they opened.
    pub fn zones(&self) -> (zones: Vec<Zone>)
        ensures
            zones@ == self@.zones,
    {
        let mut out: Vec<Zone> = Vec::new();
        let mut i: usize = 0;
        while i < self.absorption_zones.len()
            invariant
                0 <= i <= self.absorption_zones.len(),
                out@ == self.absorption_zones@.take(i as int),
            decreases self.absorption_zones.len() - i,
        {
            out.push(self.absorption_zones[i]);
            proof {
                assert(self.absorption_zones@.take(i + 1) =~= self.absorption_zones@.take(
                    i as int,
                ).push(self.absorption_zones@[i as int]));
            }
            i += 1;
        }
        assert(self.absorption_zones@.take(i as int) =~= self.absorption_zones@);
        out
    }

    /// The signals on record, oldest first.
    pub fn signal_history(&self) -> (records: Vec<SignalRecord>)
        ensures
            records@ == self@.signals.history,
    {
        self.signals.records()
    }

    /// The engine's time: the latest time a tick has worked with.
    pub fn clock(&self) -> (clock: u64)
        ensures
            clock == self@.clock,
    {
        self.clock
    }
}

} // verus!
