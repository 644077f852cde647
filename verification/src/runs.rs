//! What holds of the engine over whole runs of trades and ticks.

use vstd::prelude::*;
use crate::absorption::{
    absorbing_never_weakens, lemma_position_is_first, position, spec_abs, spec_absorbed,
    spec_min_delta_met,
};
use crate::cvd::{
    five_seconds_ago_is_the_sample_of_the_greatest_time, spec_cvd_5s_ago, CvdSample, CVD_TREND_MS,
};
use crate::price::spec_bucket_price;
use crate::processing::EngineView;
use crate::profile::{band_volume, value_area_brackets_poc, MAX_SESSION_VOLUME};
use crate::retention::{
    entries_that_stay_are_kept, expiry_absorbs_earlier, expiry_keeps_time_order, in_time_order, kept,
    kept_are_entries, latest_entry_keeps_time_order, spec_elapsed, Retained,
};
use crate::types::{MessageView, Side, Strength, Trade};
use crate::window::{net_volume, volume_of, window_volume};

verus! {

/// One thing that happens to the engine.
pub enum Step {
    /// A trade comes in.
    Trade(Trade),
    /// The driver ticks at a time.
    Tick(u64),
}

/// The engine after one step.
pub open spec fn after_step(engine: EngineView, step: Step) -> EngineView {
    match step {
        Step::Trade(trade) => engine.ingest(trade),
        Step::Tick(now) => engine.tick(now),
    }
}

/// The engine after a run of steps.
pub open spec fn after_run(engine: EngineView, steps: Seq<Step>) -> EngineView
    decreases steps.len(),
{
    if steps.len() == 0 {
        engine
    } else {
        after_step(after_run(engine, steps.drop_last()), steps.last())
    }
}

/// What one step hands out: nothing for a trade, the artifacts of the tick
/// for a tick.
pub open spec fn step_output(engine: EngineView, step: Step) -> Seq<MessageView> {
    match step {
        Step::Trade(_) => Seq::empty(),
        Step::Tick(now) => engine.tick_output(now).messages(),
    }
}

/// What a run of steps hands out, in order.
pub open spec fn run_output(engine: EngineView, steps: Seq<Step>) -> Seq<MessageView>
    decreases steps.len(),
{
    if steps.len() == 0 {
        Seq::empty()
    } else {
        run_output(engine, steps.drop_last()) + step_output(
            after_run(engine, steps.drop_last()),
            steps.last(),
        )
    }
}

/// The trades of a run that the engine takes in: the well-formed ones.
pub open spec fn taken(steps: Seq<Step>) -> Seq<Trade>
    decreases steps.len(),
{
    if steps.len() == 0 {
        Seq::empty()
    } else {
        match steps.last() {
            Step::Trade(trade) => if trade.well_formed() {
                taken(steps.drop_last()).push(trade)
            } else {
                taken(steps.drop_last())
            },
            Step::Tick(_) => taken(steps.drop_last()),
        }
    }
}

/// The engine after the trades have come in, one after the other.
pub open spec fn after_trades(engine: EngineView, trades: Seq<Trade>) -> EngineView
    decreases trades.len(),
{
    if trades.len() == 0 {
        engine
    } else {
        after_trades(engine, trades.drop_last()).ingest(trades.last())
    }
}

/// A trade taken in moves the delta by its size, up for a buy and down for
/// a sell, and no further; a malformed trade leaves the delta as it is and
/// is counted.
pub proof fn trade_moves_the_delta_by_its_size(engine: EngineView, trade: Trade)
    requires
        engine.wf(),
        engine.has_room(trade),
    ensures
        trade.well_formed() ==> engine.ingest(trade).cvd == engine.cvd + trade.signed_size(),
        trade.well_formed() ==> engine.ingest(trade).dropped == engine.dropped,
        !trade.well_formed() ==> engine.ingest(trade).cvd == engine.cvd,
        !trade.well_formed() ==> engine.ingest(trade).dropped == EngineView::one_more(engine.dropped),
        !trade.well_formed() ==> engine.ingest(trade).buffer == engine.buffer && engine.ingest(
            trade,
        ).profile == engine.profile,
{
}

proof fn lemma_run_books_the_volume(start: u64, steps: Seq<Step>)
    requires
        window_volume(taken(steps)) <= MAX_SESSION_VOLUME,
    ensures
        ({
            let engine = after_run(EngineView::initial(start), steps);
            &&& engine.profile.buy_volume == volume_of(taken(steps), Side::Buy)
            &&& engine.profile.sell_volume == volume_of(taken(steps), Side::Sell)
            &&& engine.cvd == engine.profile.buy_volume - engine.profile.sell_volume
        }),
    decreases steps.len(),
{
    if steps.len() > 0 {
        let rest = steps.drop_last();
        match steps.last() {
            Step::Trade(trade) => {
                if trade.well_formed() {
                    assert(taken(steps).drop_last() =~= taken(rest));
                }
            },
            Step::Tick(_) => {},
        }
        lemma_run_books_the_volume(start, rest);
    }
}

/// After any run of trades and ticks from the start of a session, the delta
/// is the net signed volume of the trades taken in, buys up and sells down,
/// and the session's volume by side is their volume by side.
pub proof fn cvd_is_the_net_of_the_trades(start: u64, steps: Seq<Step>)
    requires
        window_volume(taken(steps)) <= MAX_SESSION_VOLUME,
    ensures
        after_run(EngineView::initial(start), steps).cvd == net_volume(taken(steps)),
        after_run(EngineView::initial(start), steps).profile.volume() == window_volume(taken(steps)),
{
    lemma_run_books_the_volume(start, steps);
}

/// After any run of trades and ticks from the start of a session the profile
/// is in order: its levels ascend, and every level's total is the sum of its
/// two sides.
pub proof fn profile_stays_in_order(start: u64, steps: Seq<Step>)
    requires
        window_volume(taken(steps)) <= MAX_SESSION_VOLUME,
    ensures
        after_run(EngineView::initial(start), steps).profile.wf(),
    decreases steps.len(),
{
    if steps.len() > 0 {
        let rest = steps.drop_last();
        match steps.last() {
            Step::Trade(trade) => {
                if trade.well_formed() {
                    assert(taken(steps).drop_last() =~= taken(rest));
                }
            },
            Step::Tick(_) => {},
        }
        profile_stays_in_order(start, rest);
        lemma_run_books_the_volume(start, rest);
        let before = after_run(EngineView::initial(start), rest);
        match steps.last() {
            Step::Trade(trade) => {
                if trade.well_formed() {
                    crate::profile::update_keeps_the_profile_in_order(
                        before.profile,
                        trade.price,
                        trade.size,
                        trade.side,
                    );
                }
            },
            Step::Tick(_) => {},
        }
    }
}

/// After any run of trades and ticks from the start of a session, the value
/// area of a profile that holds a trade brackets the point of control, and
/// it holds 70 % of the session's volume or every level of the profile.
pub proof fn value_area_holds_after_any_run(start: u64, steps: Seq<Step>)
    requires
        window_volume(taken(steps)) <= MAX_SESSION_VOLUME,
    ensures
        ({
            let profile = after_run(EngineView::initial(start), steps).profile;
            profile.levels.len() > 0 ==> {
                let (lo, hi) = profile.value_band();
                let (vah, val) = profile.value_area().unwrap();
                let poc = profile.poc().unwrap();
                &&& 0 <= lo <= hi < profile.levels.len()
                &&& val == profile.levels[lo].price
                &&& vah == profile.levels[hi].price
                &&& val <= poc <= vah
                &&& profile.covers(band_volume(profile.levels, lo, hi) as int) || (lo == 0 && hi
                    == profile.levels.len() - 1)
            }
        }),
{
    profile_stays_in_order(start, steps);
    let profile = after_run(EngineView::initial(start), steps).profile;
    if profile.levels.len() > 0 {
        value_area_brackets_poc(profile);
    }
}

/// A tick leaves the delta and the profile as they are.
pub proof fn ticks_leave_delta_and_profile(engine: EngineView, now: u64)
    ensures
        engine.tick(now).cvd == engine.cvd,
        engine.tick(now).profile == engine.profile,
{
}

/// A tick keeps the two histories in the order their entries were taken,
/// with none of them later than the clock.
pub proof fn histories_stay_in_time_order(engine: EngineView, now: u64)
    requires
        engine.wf(),
    ensures
        in_time_order(engine.tick(now).volume_history, engine.tick(now).clock),
        in_time_order(engine.tick(now).cvd_history, engine.tick(now).clock),
{
    let e = engine.expired(now);
    expiry_keeps_time_order(engine.volume_history, engine.clock, e.clock, e.clock);
    expiry_keeps_time_order(engine.cvd_history, engine.clock, e.clock, e.clock);
    if engine.buffer.len() > 0 {
        latest_entry_keeps_time_order(e.volume_history, e.clock, e.volume_history_after().last());
        latest_entry_keeps_time_order(e.cvd_history, e.clock, CvdSample { timestamp: e.clock, cvd: e.cvd });
    }
}

/// After a tick that closed a window, the delta of five seconds ago is the
/// delta of the sample of the greatest time among those in the history that
/// are five seconds old at the time of the tick, the last of them where
/// several were taken at that time; it is the current delta where no
/// sample is that old.
pub proof fn trend_base_is_five_seconds_old(engine: EngineView, now: u64)
    requires
        engine.wf(),
        engine.buffer.len() > 0,
    ensures
        ({
            let after = engine.tick(now);
            let history = after.cvd_history;
            &&& after.cvd == engine.cvd
            &&& after.cvd_5s_ago == spec_cvd_5s_ago(history, after.clock, after.cvd)
            &&& (forall|j: int|
                0 <= j < history.len() ==> !spec_elapsed(
                    (#[trigger] history[j]).timestamp,
                    after.clock,
                    CVD_TREND_MS,
                )) ==> after.cvd_5s_ago == after.cvd
            &&& (exists|j: int|
                0 <= j < history.len() && spec_elapsed(
                    (#[trigger] history[j]).timestamp,
                    after.clock,
                    CVD_TREND_MS,
                )) ==> exists|k: int|
                {
                    &&& 0 <= k < history.len()
                    &&& spec_elapsed((#[trigger] history[k]).timestamp, after.clock, CVD_TREND_MS)
                    &&& after.cvd_5s_ago == history[k].cvd
                    &&& forall|j: int|
                        0 <= j < history.len() && spec_elapsed(
                            (#[trigger] history[j]).timestamp,
                            after.clock,
                            CVD_TREND_MS,
                        ) ==> history[j].timestamp <= history[k].timestamp && j <= k
                }
        }),
{
    let after = engine.tick(now);
    histories_stay_in_time_order(engine, now);
    five_seconds_ago_is_the_sample_of_the_greatest_time(
        after.cvd_history,
        after.clock,
        after.clock,
        after.cvd,
    );
}

/// Is the sample one that a tick at time `t` looks back to: still in the
/// history, and five seconds old?
pub open spec fn looked_back_to(sample: CvdSample, t: u64) -> bool {
    sample.spec_keep(t) && spec_elapsed(sample.timestamp, t, CVD_TREND_MS)
}

/// The same by the history as the tick found it. Of the samples taken no
/// more than thirty and no less than five seconds before the tick, the one
/// of the greatest time gives the delta of five seconds ago; where the
/// history holds no such sample, the current delta does. The tick leaves the
/// delta as it is.
pub proof fn trend_base_by_the_history_before(engine: EngineView, now: u64)
    requires
        engine.wf(),
        engine.buffer.len() > 0,
    ensures
        ({
            let after = engine.tick(now);
            let before = engine.cvd_history;
            let t = after.clock;
            &&& t == engine.time(now)
            &&& after.cvd == engine.cvd
            &&& (forall|j: int| 0 <= j < before.len() ==> !looked_back_to(#[trigger] before[j], t))
                ==> after.cvd_5s_ago == after.cvd
            &&& (exists|j: int| 0 <= j < before.len() && looked_back_to(#[trigger] before[j], t))
                ==> exists|k: int|
                {
                    &&& 0 <= k < before.len()
                    &&& looked_back_to(#[trigger] before[k], t)
                    &&& after.cvd_5s_ago == before[k].cvd
                    &&& forall|j: int|
                        0 <= j < before.len() && looked_back_to(#[trigger] before[j], t)
                            ==> before[j].timestamp <= before[k].timestamp
                }
        }),
{
    let after = engine.tick(now);
    let before = engine.cvd_history;
    let t = after.clock;
    let stay = kept(before, t);
    let history = after.cvd_history;
    assert(history == stay.push(CvdSample { timestamp: t, cvd: engine.cvd }));
    kept_are_entries(before, t);
    trend_base_is_five_seconds_old(engine, now);
    if forall|j: int| 0 <= j < before.len() ==> !looked_back_to(#[trigger] before[j], t) {
        assert forall|j: int| 0 <= j < history.len() implies !spec_elapsed(
            (#[trigger] history[j]).timestamp,
            t,
            CVD_TREND_MS,
        ) by {
            if j < stay.len() {
                assert(stay[j].spec_keep(t) && before.contains(stay[j]));
                let i = choose|i: int| 0 <= i < before.len() && before[i] == stay[j];
                assert(!looked_back_to(before[i], t));
            }
        }
    } else {
        let j0 = choose|j: int| 0 <= j < before.len() && looked_back_to(#[trigger] before[j], t);
        entries_that_stay_are_kept(before, t, j0);
        let h0 = choose|h: int| 0 <= h < stay.len() && stay[h] == before[j0];
        assert(history[h0] == before[j0]);
        assert(spec_elapsed(history[h0].timestamp, t, CVD_TREND_MS));
        let k1 = choose|k: int|
            {
                &&& 0 <= k < history.len()
                &&& spec_elapsed((#[trigger] history[k]).timestamp, t, CVD_TREND_MS)
                &&& after.cvd_5s_ago == history[k].cvd
                &&& forall|j: int|
                    0 <= j < history.len() && spec_elapsed(
                        (#[trigger] history[j]).timestamp,
                        t,
                        CVD_TREND_MS,
                    ) ==> history[j].timestamp <= history[k].timestamp && j <= k
            };
        assert(k1 < stay.len());
        assert(stay[k1].spec_keep(t) && before.contains(stay[k1]));
        let k = choose|k: int| 0 <= k < before.len() && before[k] == stay[k1];
        assert(looked_back_to(before[k], t));
        assert forall|j: int| 0 <= j < before.len() && looked_back_to(
            #[trigger] before[j],
            t,
        ) implies before[j].timestamp <= before[k].timestamp by {
            entries_that_stay_are_kept(before, t, j);
            let h = choose|h: int| 0 <= h < stay.len() && stay[h] == before[j];
            assert(history[h] == before[j]);
            assert(spec_elapsed(history[h].timestamp, t, CVD_TREND_MS));
        }
    }
}

/// The first window of a session has no delta flip, whatever its trades, and
/// the session starts with a delta of zero five seconds ago.
pub proof fn first_window_has_no_flip(start: u64, trades: Seq<Trade>, now: u64)
    ensures
        EngineView::initial(start).cvd_5s_ago == 0,
        after_trades(EngineView::initial(start), trades).tick_output(now).delta_flip.is_none(),
{
    lemma_trades_touch_the_window_only(EngineView::initial(start), trades);
}

proof fn lemma_trades_touch_the_window_only(engine: EngineView, trades: Seq<Trade>)
    ensures
        after_trades(engine, trades) == (EngineView {
            buffer: after_trades(engine, trades).buffer,
            dropped: after_trades(engine, trades).dropped,
            cvd: after_trades(engine, trades).cvd,
            profile: after_trades(engine, trades).profile,
            ..engine
        }),
    decreases trades.len(),
{
    if trades.len() > 0 {
        lemma_trades_touch_the_window_only(engine, trades.drop_last());
    }
}

proof fn lemma_trades_pass_expiry_by(engine: EngineView, earlier: EngineView, trades: Seq<Trade>)
    requires
        earlier.buffer == engine.buffer,
        earlier.dropped == engine.dropped,
        earlier.cvd == engine.cvd,
        earlier.profile == engine.profile,
    ensures
        after_trades(earlier, trades).buffer == after_trades(engine, trades).buffer,
        after_trades(earlier, trades).dropped == after_trades(engine, trades).dropped,
        after_trades(earlier, trades).cvd == after_trades(engine, trades).cvd,
        after_trades(earlier, trades).profile == after_trades(engine, trades).profile,
    decreases trades.len(),
{
    if trades.len() > 0 {
        lemma_trades_pass_expiry_by(engine, earlier, trades.drop_last());
    }
}

/// A tick that finds the window empty leaves no trace: the trades that come
/// in after it and the tick that closes their window leave the engine, and
/// hand out, what they would have without it.
pub proof fn empty_ticks_leave_no_trace(engine: EngineView, early: u64, trades: Seq<Trade>, now: u64)
    requires
        engine.buffer.len() == 0,
        early <= now,
    ensures
        after_trades(engine.tick(early), trades).tick(now) == after_trades(engine, trades).tick(now),
        after_trades(engine.tick(early), trades).tick_output(now) == after_trades(
            engine,
            trades,
        ).tick_output(now),
{
    let ticked = engine.tick(early);
    let a = after_trades(ticked, trades);
    let b = after_trades(engine, trades);
    lemma_trades_touch_the_window_only(ticked, trades);
    lemma_trades_touch_the_window_only(engine, trades);
    lemma_trades_pass_expiry_by(engine, ticked, trades);
    expiry_absorbs_earlier(engine.zones, engine.time(early), a.time(now));
    expiry_absorbs_earlier(engine.volume_history, engine.time(early), a.time(now));
    expiry_absorbs_earlier(engine.cvd_history, engine.time(early), a.time(now));
    assert(a.expired(now) == b.expired(now));
}

/// A zone that stays through a tick keeps its price and the time it was
/// first seen, its peak strength does not drop, and it was last seen no
/// earlier than first.
pub proof fn zones_never_weaken(engine: EngineView, now: u64, i: int)
    requires
        engine.wf(),
        0 <= i < engine.expired(now).zones.len(),
    ensures
        engine.zones.contains(engine.expired(now).zones[i]),
        i < engine.tick(now).zones.len(),
        engine.tick(now).zones[i].price == engine.expired(now).zones[i].price,
        engine.tick(now).zones[i].first_seen == engine.expired(now).zones[i].first_seen,
        engine.tick(now).zones[i].peak_strength.spec_ordinal() >= engine.expired(
            now,
        ).zones[i].peak_strength.spec_ordinal(),
        engine.tick(now).zones[i].last_seen >= engine.tick(now).zones[i].first_seen,
{
    let e = engine.expired(now);
    kept_are_entries(engine.zones, e.clock);
    crate::absorption::expiry_keeps_zones_in_order(
        engine.zones,
        engine.clock,
        engine.closed_volume(),
        e.clock,
    );
    assert(e.zones[i].ok(e.clock, engine.closed_volume()));
    if engine.buffer.len() > 0 {
        match e.absorption_plan() {
            Some(p) => {
                absorbing_never_weakens(
                    e.zones,
                    e.clock,
                    engine.closed_volume(),
                    p.price,
                    e.clock,
                    p.kind,
                    p.abs_delta,
                    p.at_key_level,
                    p.against_trend,
                    i,
                );
            },
            None => {},
        }
    }
}

/// A window that absorbs at a price where no zone stands opens a zone
/// there: one event, the window's net volume absorbed, first and last seen
/// at the time of the tick. The event is announced where the price is at a
/// key level or the absorption runs against the trend of the delta, and
/// where neither holds it is not.
pub proof fn absorption_opens_a_zone(engine: EngineView, now: u64)
    requires
        engine.wf(),
        engine.buffer.len() > 0,
        ({
            let e = engine.expired(now);
            let w = e.summary();
            &&& spec_absorbed(w.delta, w.price_change).is_some()
            &&& spec_min_delta_met(e.volume_history_after(), e.clock, spec_abs(w.delta))
            &&& forall|i: int|
                0 <= i < e.zones.len() ==> (#[trigger] e.zones[i]).price != spec_bucket_price(
                    w.price as int,
                )
        }),
    ensures
        ({
            let e = engine.expired(now);
            let w = e.summary();
            let after = engine.tick(now);
            let plan = e.absorption_plan().unwrap();
            let zone = after.zones.last();
            let event = engine.tick_output(now).absorption;
            &&& after.zones.len() == e.zones.len() + 1
            &&& after.zones.drop_last() == e.zones
            &&& zone.price == spec_bucket_price(w.price as int)
            &&& zone.absorption_type == spec_absorbed(w.delta, w.price_change).unwrap()
            &&& zone.event_count == 1
            &&& zone.total_absorbed == spec_abs(w.delta)
            &&& zone.first_seen == after.clock
            &&& zone.last_seen == after.clock
            &&& event.is_some() <==> plan.at_key_level || plan.against_trend
            &&& event.is_some() ==> {
                let a = event.unwrap();
                &&& a.timestamp == after.clock
                &&& a.price == zone.price
                &&& a.absorption_type == zone.absorption_type
                &&& a.delta == w.delta
                &&& a.price_change == w.price_change
                &&& a.event_count == 1
                &&& a.total_absorbed == spec_abs(w.delta)
                &&& a.at_key_level == plan.at_key_level
                &&& a.against_trend == plan.against_trend
                &&& a.strength != Strength::Weak
            }
        }),
{
    let e = engine.expired(now);
    let w = e.summary();
    let plan = e.absorption_plan().unwrap();
    lemma_position_is_first(e.zones, plan.price);
    let p = position(e.zones, plan.price);
    if p < e.zones.len() {
        assert(e.zones[p].price != spec_bucket_price(w.price as int));
    }
    assert(engine.tick(now).zones.drop_last() =~= e.zones);
}

/// A tick that finds the window empty leaves the signals, the session's
/// figures and the profile as they are, and so the statistics: asked for
/// again, with no trade in between, they are what they were.
pub proof fn quiet_ticks_leave_the_statistics(engine: EngineView, now: u64)
    requires
        engine.buffer.len() == 0,
    ensures
        engine.tick(now).signals == engine.signals,
        engine.tick_output(now).stats.is_none(),
        engine.tick(now).signals.session_stats(
            engine.tick(now).session_start,
            engine.tick(now).profile.volume() as u64,
        ) == engine.signals.session_stats(engine.session_start, engine.profile.volume() as u64),
{
}

/// A trade leaves the zones as they are.
pub proof fn trades_leave_the_zones(engine: EngineView, trade: Trade)
    ensures
        engine.ingest(trade).zones == engine.zones,
{
}

} // verus!
