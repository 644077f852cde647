//! Replay of recorded trades through the engine, and the signals it yields.

use vstd::prelude::*;
use crate::processing::{EngineView, ProcessingState};
use crate::profile::MAX_SESSION_VOLUME;
use crate::trades::{millis_of, spec_millis_of};
use crate::runs::{after_run, cvd_is_the_net_of_the_trades, run_output, taken, Step};
use crate::types::{
    message_views, Direction, MessageView, SignalKind, Strength, Trade, WsMessage,
};
use crate::window::window_volume;

verus! {

/// Length of a replay's windows, in milliseconds.
pub const REPLAY_WINDOW_MS: u64 = 100;

/// The low 32 bits of a size.
pub open spec fn low_size(size: u64) -> u32 {
    (size % 0x1_0000_0000) as u32
}

/// An event time as the engine's unsigned milliseconds: a time before the
/// epoch wraps around.
pub open spec fn unsigned_millis(millis: i64) -> u64 {
    if millis >= 0 {
        millis as u64
    } else {
        (millis + 0x1_0000_0000_0000_0000) as u64
    }
}

/// A recorded trade as a trade for the engine. The size keeps its low 32
/// bits, the time its milliseconds.
pub open spec fn spec_convert(trade: crate::trades::Trade) -> Trade {
    Trade {
        symbol: trade.symbol,
        price: trade.price,
        size: low_size(trade.size),
        side: trade.side,
        timestamp: unsigned_millis(spec_millis_of(trade.ts_event)),
    }
}

/// Turns a recorded trade into a trade for the engine.
pub fn convert_to_processing_trade(trade: &crate::trades::Trade) -> (out: Trade)
    ensures
        out == spec_convert(*trade),
{
    let size = trade.size;
    let millis = millis_of(trade.ts_event);
    assert(size as u32 == (size % 0x1_0000_0000) as u32) by (bit_vector);
    assert(millis >= 0 ==> millis as u64 == millis) by (bit_vector);
    assert(millis < 0 ==> millis as u64 == millis + 0x1_0000_0000_0000_0000) by (bit_vector);
    Trade {
        symbol: trade.symbol.clone(),
        price: trade.price,
        size: #[verifier::truncate]
        (size as u32),
        side: trade.side,
        timestamp: #[verifier::truncate]
        (millis as u64),
    }
}

/// A signal as a replay keeps it.
#[derive(Clone, Copy, Debug, PartialEq, Eq)]
pub struct CapturedSignal {
    pub timestamp: u64,
    pub signal_type: SignalKind,
    pub direction: Direction,
    pub price: i64,
    pub strength: Option<Strength>,
    pub score: Option<u8>,
}

/// The middle of two prices, rounded towards zero.
pub open spec fn spec_middle(low: i64, high: i64) -> i64 {
    (if low + high >= 0 {
        (low + high) / 2
    } else {
        -((-(low + high)) / 2)
    }) as i64
}

/// The middle of two prices.
pub fn middle(low: i64, high: i64) -> (mid: i64)
    ensures
        mid == spec_middle(low, high),
{
    let sum: i128 = low as i128 + high as i128;
    if sum >= 0 {
        (sum / 2) as i64
    } else {
        (-((-sum) / 2)) as i64
    }
}

/// The signal that a message carries, if it carries one. A delta flip has
/// no price of its own and is kept at zero; an absorption of buying points
/// down and one of selling up; a stacked imbalance is kept at the middle of
/// its range.
pub open spec fn spec_capture(message: MessageView) -> Option<CapturedSignal> {
    match message {
        MessageView::DeltaFlip(flip) => Some(
            CapturedSignal {
                timestamp: flip.timestamp,
                signal_type: SignalKind::DeltaFlip,
                direction: flip.direction,
                price: 0,
                strength: None,
                score: None,
            },
        ),
        MessageView::Absorption(event) => Some(
            CapturedSignal {
                timestamp: event.timestamp,
                signal_type: SignalKind::Absorption,
                direction: event.absorption_type.spec_direction(),
                price: event.price,
                strength: Some(event.strength),
                score: None,
            },
        ),
        MessageView::StackedImbalance(stacked) => Some(
            CapturedSignal {
                timestamp: stacked.timestamp,
                signal_type: SignalKind::StackedImbalance,
                direction: stacked.side.spec_direction(),
                price: spec_middle(stacked.price_low, stacked.price_high),
                strength: None,
                score: None,
            },
        ),
        MessageView::Confluence(confluence) => Some(
            CapturedSignal {
                timestamp: confluence.timestamp,
                signal_type: SignalKind::Confluence,
                direction: confluence.direction,
                price: confluence.price,
                strength: None,
                score: Some(confluence.score),
            },
        ),
        _ => None,
    }
}

/// The signals that the messages carry, in order.
pub open spec fn captures(messages: Seq<MessageView>) -> Seq<CapturedSignal>
    decreases messages.len(),
{
    if messages.len() == 0 {
        Seq::empty()
    } else {
        match spec_capture(messages.last()) {
            Some(signal) => captures(messages.drop_last()).push(signal),
            None => captures(messages.drop_last()),
        }
    }
}

/// Keeps the signals among the messages it is shown.
pub struct SignalCollector {
    pub signals: Vec<CapturedSignal>,
}

impl SignalCollector {
    /// A collector that has kept nothing yet.
    pub fn new() -> (collector: SignalCollector)
        ensures
            collector.signals@.len() == 0,
    {
        SignalCollector { signals: Vec::new() }
    }

    /// Keeps the signal that a message carries, if it carries one.
    pub fn process_message(&mut self, msg: &WsMessage)
        ensures
            final(self).signals@ == (match spec_capture(msg@) {
                Some(signal) => old(self).signals@.push(signal),
                None => old(self).signals@,
            }),
    {
        match msg {
            WsMessage::DeltaFlip(flip) => {
                self.signals.push(
                    CapturedSignal {
                        timestamp: flip.timestamp,
                        signal_type: SignalKind::DeltaFlip,
                        direction: flip.direction,
                        price: 0,
                        strength: None,
                        score: None,
                    },
                );
            },
            WsMessage::Absorption(event) => {
                self.signals.push(
                    CapturedSignal {
                        timestamp: event.timestamp,
                        signal_type: SignalKind::Absorption,
                        direction: event.absorption_type.direction(),
                        price: event.price,
                        strength: Some(event.strength),
                        score: None,
                    },
                );
            },
            WsMessage::StackedImbalance(stacked) => {
                self.signals.push(
                    CapturedSignal {
                        timestamp: stacked.timestamp,
                        signal_type: SignalKind::StackedImbalance,
                        direction: stacked.side.direction(),
                        price: middle(stacked.price_low, stacked.price_high),
                        strength: None,
                        score: None,
                    },
                );
            },
            WsMessage::Confluence(confluence) => {
                self.signals.push(
                    CapturedSignal {
                        timestamp: confluence.timestamp,
                        signal_type: SignalKind::Confluence,
                        direction: confluence.direction,
                        price: confluence.price,
                        strength: None,
                        score: Some(confluence.score),
                    },
                );
            },
            _ => {},
        }
    }

    /// Keeps the signals among the messages, in order.
    pub fn process_messages(&mut self, messages: &Vec<WsMessage>)
        ensures
            final(self).signals@ == old(self).signals@ + captures(message_views(messages@)),
    {
        let mut i: usize = 0;
        assert(message_views(messages@).take(0) =~= Seq::<MessageView>::empty());
        assert(self.signals@ + Seq::<CapturedSignal>::empty() =~= self.signals@);
        while i < messages.len()
            invariant
                0 <= i <= messages.len(),
                self.signals@ == old(self).signals@ + captures(
                    message_views(messages@).take(i as int),
                ),
            decreases messages.len() - i,
        {
            let ghost views = message_views(messages@);
            proof {
                assert(views.take(i + 1).drop_last() =~= views.take(i as int));
                assert(views.take(i + 1).last() == messages@[i as int]@);
                match spec_capture(messages@[i as int]@) {
                    Some(signal) => {
                        assert((old(self).signals@ + captures(views.take(i as int))).push(signal)
                            =~= old(self).signals@ + captures(views.take(i as int)).push(signal));
                    },
                    None => {},
                }
            }
            self.process_message(&messages[i]);
            i += 1;
        }
        proof {
            assert(message_views(messages@).take(i as int) =~= message_views(messages@));
        }
    }
}

/// Recorded trades as trades for the engine.
pub open spec fn converted(trades: Seq<crate::trades::Trade>) -> Seq<Trade> {
    Seq::new(trades.len(), |i: int| spec_convert(trades[i]))
}

/// Where the window ends that the last of the trades falls into; zero before
/// the first trade. A window opens with the first trade that comes at or
/// after the end of the window before, and lasts `REPLAY_WINDOW_MS` from it.
pub open spec fn replay_window_end(trades: Seq<Trade>) -> u64
    decreases trades.len(),
{
    if trades.len() == 0 {
        0
    } else {
        let end = replay_window_end(trades.drop_last());
        if end == 0 || trades.last().timestamp >= end {
            (trades.last().timestamp + REPLAY_WINDOW_MS) as u64
        } else {
            end
        }
    }
}

/// The steps that a replay takes the engine through up to the last of the
/// trades: each trade comes in, and before one that opens a new window comes
/// a tick at its time, which closes the window before.
pub open spec fn replay_steps(trades: Seq<Trade>) -> Seq<Step>
    decreases trades.len(),
{
    if trades.len() == 0 {
        Seq::empty()
    } else {
        let steps = replay_steps(trades.drop_last());
        let end = replay_window_end(trades.drop_last());
        if end != 0 && trades.last().timestamp >= end {
            steps.push(Step::Tick(trades.last().timestamp)).push(Step::Trade(trades.last()))
        } else {
            steps.push(Step::Trade(trades.last()))
        }
    }
}

/// The steps of a whole replay: those up to the last trade, and a tick at
/// the end of the last window.
pub open spec fn full_replay(trades: Seq<Trade>) -> Seq<Step> {
    replay_steps(trades).push(Step::Tick(replay_window_end(trades)))
}

/// The signals that a replay of the trades yields: those among what the
/// engine hands out on the way, when its session starts with the first trade.
pub open spec fn replayed_signals(trades: Seq<Trade>) -> Seq<CapturedSignal> {
    if trades.len() == 0 {
        Seq::empty()
    } else {
        captures(run_output(EngineView::initial(trades[0].timestamp), full_replay(trades)))
    }
}

/// Can the trades be replayed? Their windows must end within the range of
/// time, and their volume must fit a session.
pub open spec fn replayable(trades: Seq<Trade>) -> bool {
    &&& forall|i: int|
        0 <= i < trades.len() ==> (#[trigger] trades[i]).timestamp + REPLAY_WINDOW_MS <= u64::MAX
    &&& window_volume(trades) <= MAX_SESSION_VOLUME
}

proof fn lemma_captures_add(a: Seq<MessageView>, b: Seq<MessageView>)
    ensures
        captures(a + b) == captures(a) + captures(b),
    decreases b.len(),
{
    if b.len() == 0 {
        assert(a + b =~= a);
        assert(captures(a) + captures(b) =~= captures(a));
    } else {
        assert((a + b).drop_last() =~= a + b.drop_last());
        assert((a + b).last() == b.last());
        lemma_captures_add(a, b.drop_last());
        match spec_capture(b.last()) {
            Some(signal) => {
                assert((captures(a) + captures(b.drop_last())).push(signal) =~= captures(a)
                    + captures(b.drop_last()).push(signal));
            },
            None => {},
        }
    }
}

proof fn lemma_taken_volume(steps: Seq<Step>, trades: Seq<Trade>)
    requires
        steps == replay_steps(trades),
    ensures
        window_volume(taken(steps)) <= window_volume(trades),
    decreases trades.len(),
{
    if trades.len() > 0 {
        let rest = trades.drop_last();
        lemma_taken_volume(replay_steps(rest), rest);
        let end = replay_window_end(rest);
        let last = trades.last();
        if end != 0 && last.timestamp >= end {
            let ticked = replay_steps(rest).push(Step::Tick(last.timestamp));
            assert(ticked.drop_last() =~= replay_steps(rest));
            assert(steps.drop_last() =~= ticked);
        } else {
            assert(steps.drop_last() =~= replay_steps(rest));
        }
        if last.well_formed() {
            assert(taken(steps).drop_last() =~= taken(steps.drop_last()));
        }
    }
}

proof fn lemma_volume_of_prefix(trades: Seq<Trade>, i: int)
    requires
        0 <= i <= trades.len(),
    ensures
        window_volume(trades.take(i)) <= window_volume(trades),
    decreases trades.len() - i,
{
    if i == trades.len() {
        assert(trades.take(i) =~= trades);
    } else {
        lemma_volume_of_prefix(trades, i + 1);
        assert(trades.take(i + 1).drop_last() =~= trades.take(i));
    }
}

/// Can the recorded trades be replayed?
pub fn is_replayable(trades: &Vec<crate::trades::Trade>) -> (yes: bool)
    ensures
        yes == replayable(converted(trades@)),
{
    let ghost all = converted(trades@);
    let mut volume: u64 = 0;
    let mut i: usize = 0;
    proof {
        assert(all.take(0) =~= Seq::<Trade>::empty());
    }
    while i < trades.len()
        invariant
            0 <= i <= trades.len(),
            all == converted(trades@),
            volume == window_volume(all.take(i as int)),
            volume <= MAX_SESSION_VOLUME,
            forall|k: int|
                0 <= k < i ==> (#[trigger] all[k]).timestamp + REPLAY_WINDOW_MS <= u64::MAX,
        decreases trades.len() - i,
    {
        let trade = convert_to_processing_trade(&trades[i]);
        proof {
            assert(all.take(i + 1).drop_last() =~= all.take(i as int));
            assert(all.take(i + 1).last() == trade);
            lemma_volume_of_prefix(all, i + 1);
        }
        if trade.timestamp > u64::MAX - REPLAY_WINDOW_MS {
            return false;
        }
        if trade.size as u64 > MAX_SESSION_VOLUME - volume {
            return false;
        }
        volume = volume + trade.size as u64;
        i += 1;
    }
    proof {
        assert(all.take(i as int) =~= all);
    }
    true
}

/// Does the trade open a new window after the trades before it?
pub open spec fn opens_window(before: Seq<Trade>, trade: Trade) -> bool {
    replay_window_end(before) != 0 && trade.timestamp >= replay_window_end(before)
}

proof fn lemma_replay_step(start: u64, before: Seq<Trade>, trade: Trade)
    requires
        window_volume(before.push(trade)) <= MAX_SESSION_VOLUME,
    ensures
        ({
            let origin = EngineView::initial(start);
            let steps = replay_steps(before);
            let next = replay_steps(before.push(trade));
            let engine = after_run(origin, steps);
            if opens_window(before, trade) {
                &&& after_run(origin, next) == engine.tick(trade.timestamp).ingest(trade)
                &&& run_output(origin, next) == run_output(origin, steps) + engine.tick_output(
                    trade.timestamp,
                ).messages()
                &&& engine.tick(trade.timestamp).has_room(trade)
            } else {
                &&& after_run(origin, next) == engine.ingest(trade)
                &&& run_output(origin, next) == run_output(origin, steps)
                &&& engine.has_room(trade)
            }
        }),
{
    let origin = EngineView::initial(start);
    let all = before.push(trade);
    let steps = replay_steps(before);
    let next = replay_steps(all);
    assert(all.drop_last() =~= before);
    assert(all.last() == trade);
    lemma_taken_volume(next, all);
    lemma_taken_volume(steps, before);
    assert(window_volume(before) <= window_volume(all));
    if opens_window(before, trade) {
        let ticked = steps.push(Step::Tick(trade.timestamp));
        assert(ticked.drop_last() =~= steps);
        assert(next.drop_last() =~= ticked);
        assert(taken(ticked) == taken(steps));
        cvd_is_the_net_of_the_trades(start, ticked);
        if trade.well_formed() {
            assert(taken(next).drop_last() =~= taken(ticked));
        }
        assert(run_output(origin, ticked) + Seq::<MessageView>::empty() =~= run_output(
            origin,
            ticked,
        ));
    } else {
        assert(next.drop_last() =~= steps);
        cvd_is_the_net_of_the_trades(start, steps);
        if trade.well_formed() {
            assert(taken(next).drop_last() =~= taken(steps));
        }
        assert(run_output(origin, steps) + Seq::<MessageView>::empty() =~= run_output(
            origin,
            steps,
        ));
    }
}

/// Replays recorded trades through the engine in windows of
/// `REPLAY_WINDOW_MS` and hands back the signals that come of it.
pub fn replay_trades_for_signals(trades: &Vec<crate::trades::Trade>) -> (signals: Vec<CapturedSignal>)
    requires
        replayable(converted(trades@)),
    ensures
        signals@ == replayed_signals(converted(trades@)),
{
    if trades.len() == 0 {
        return Vec::new();
    }
    let ghost all = converted(trades@);
    let first = convert_to_processing_trade(&trades[0]);
    let ghost start = first.timestamp;
    let ghost origin = EngineView::initial(start);
    assert(all[0] == first);
    let mut engine = ProcessingState::new(first.timestamp);
    let mut collector = SignalCollector::new();
    let mut window_end: u64 = 0;
    let mut i: usize = 0;
    proof {
        assert(all.take(0) =~= Seq::<Trade>::empty());
    }
    while i < trades.len()
        invariant
            0 <= i <= trades.len(),
            all == converted(trades@),
            replayable(all),
            origin == EngineView::initial(start),
            engine@ == after_run(origin, replay_steps(all.take(i as int))),
            engine@.wf(),
            window_end == replay_window_end(all.take(i as int)),
            collector.signals@ == captures(run_output(origin, replay_steps(all.take(i as int)))),
        decreases trades.len() - i,
    {
        let trade = convert_to_processing_trade(&trades[i]);
        let ghost before = all.take(i as int);
        proof {
            assert(all.take(i + 1) =~= before.push(trade));
            assert(before.push(trade).drop_last() =~= before);
            assert(all[i as int].timestamp + REPLAY_WINDOW_MS <= u64::MAX);
            lemma_volume_of_prefix(all, i + 1);
            lemma_replay_step(start, before, trade);
        }
        if window_end != 0 && trade.timestamp >= window_end {
            proof {
                lemma_captures_add(
                    run_output(origin, replay_steps(before)),
                    engine@.tick_output(trade.timestamp).messages(),
                );
            }
            let out = engine.process_buffer(trade.timestamp);
            collector.process_messages(&out);
            window_end = trade.timestamp + REPLAY_WINDOW_MS;
        } else if window_end == 0 {
            window_end = trade.timestamp + REPLAY_WINDOW_MS;
        }
        engine.add_trade(trade);
        i += 1;
    }
    proof {
        assert(all.take(i as int) =~= all);
        assert(full_replay(all).drop_last() =~= replay_steps(all));
        lemma_captures_add(
            run_output(origin, replay_steps(all)),
            engine@.tick_output(window_end).messages(),
        );
    }
    let out = engine.process_buffer(window_end);
    collector.process_messages(&out);
    collector.signals
}

} // verus!
