//! The cumulative volume delta: its short history, its value five seconds
//! ago, and the flips of its sign.

use vstd::prelude::*;
use crate::retention::{elapsed, in_time_order, spec_elapsed, spec_within, within, Retained, Stamped};
use crate::types::{Direction, DeltaFlip, FlipType};

verus! {

/// How long a sample of the delta stays in the history, in milliseconds.
pub const CVD_HISTORY_MS: u64 = 30_000;

/// How far back the trend looks, in milliseconds.
pub const CVD_TREND_MS: u64 = 5_000;

/// Least time between two delta flips, in milliseconds.
pub const FLIP_COOLDOWN_MS: u64 = 2_000;

/// The delta as it stood at the end of one window.
#[derive(Clone, Copy, Debug, PartialEq, Eq)]
pub struct CvdSample {
    pub timestamp: u64,
    pub cvd: i64,
}

impl Retained for CvdSample {
    open spec fn spec_keep(&self, now: u64) -> bool {
        spec_within(self.timestamp, now, CVD_HISTORY_MS)
    }

    fn keep(&self, now: u64) -> (stays: bool) {
        within(self.timestamp, now, CVD_HISTORY_MS)
    }

    proof fn keep_is_monotone(&self, earlier: u64, later: u64) {
    }
}

impl Stamped for CvdSample {
    open spec fn stamp(&self) -> u64 {
        self.timestamp
    }
}

/// The delta of the most recent sample taken `CVD_TREND_MS` or more before
/// `now`; `current` where there is none.
pub open spec fn spec_cvd_5s_ago(history: Seq<CvdSample>, now: u64, current: i64) -> i64
    decreases history.len(),
{
    if history.len() == 0 {
        current
    } else if spec_elapsed(history.last().timestamp, now, CVD_TREND_MS) {
        history.last().cvd
    } else {
        spec_cvd_5s_ago(history.drop_last(), now, current)
    }
}

/// The delta of five seconds before `now`, by the history.
pub fn cvd_5s_ago(history: &Vec<CvdSample>, now: u64, current: i64) -> (cvd: i64)
    ensures
        cvd == spec_cvd_5s_ago(history@, now, current),
{
    let mut i: usize = history.len();
    proof {
        assert(history@.take(i as int) =~= history@);
    }
    while i > 0
        invariant
            0 <= i <= history.len(),
            spec_cvd_5s_ago(history@, now, current) == spec_cvd_5s_ago(
                history@.take(i as int),
                now,
                current,
            ),
        decreases i,
    {
        proof {
            assert(history@.take(i as int).drop_last() =~= history@.take(i - 1));
        }
        if elapsed(history[i - 1].timestamp, now, CVD_TREND_MS) {
            return history[i - 1].cvd;
        }
        i -= 1;
    }
    current
}

/// Sign of the delta: -1, 0 or 1.
pub open spec fn spec_sign(cvd: i64) -> int {
    if cvd > 0 {
        1
    } else if cvd < 0 {
        -1
    } else {
        0
    }
}

/// Sign of the delta.
pub fn sign(cvd: i64) -> (s: i8)
    ensures
        s == spec_sign(cvd),
{
    if cvd > 0 {
        1
    } else if cvd < 0 {
        -1
    } else {
        0
    }
}

/// What the flip detector remembers between windows.
#[derive(Clone, Copy, Debug, PartialEq, Eq)]
pub struct FlipState {
    pub prev_sign: i8,
    pub last_flip_time: u64,
}

impl FlipState {
    /// A detector that has seen no window.
    pub open spec fn initial() -> FlipState {
        FlipState { prev_sign: 0, last_flip_time: 0 }
    }

    /// Does a delta of `cvd` at time `now` flip? It does where the sign was
    /// not zero, is not zero, has changed, and the cooldown has passed.
    pub open spec fn flips(self, now: u64, cvd: i64) -> bool {
        &&& self.prev_sign != 0
        &&& spec_sign(cvd) != 0
        &&& self.prev_sign != spec_sign(cvd)
        &&& spec_elapsed(self.last_flip_time, now, FLIP_COOLDOWN_MS)
    }

    /// The flip that a delta of `cvd` at time `now` gives rise to, if any.
    pub open spec fn spec_flip(self, now: u64, cvd: i64, before: i64) -> Option<DeltaFlip> {
        if self.flips(now, cvd) {
            Some(
                DeltaFlip {
                    timestamp: now,
                    flip_type: FlipType::ZeroCross,
                    direction: if cvd > 0 {
                        Direction::Bullish
                    } else {
                        Direction::Bearish
                    },
                    cvd_before: before,
                    cvd_after: cvd,
                },
            )
        } else {
            None
        }
    }

    /// The detector after a window that ends with a delta of `cvd` at `now`.
    pub open spec fn spec_next(self, now: u64, cvd: i64) -> FlipState {
        FlipState {
            prev_sign: spec_sign(cvd) as i8,
            last_flip_time: if self.flips(now, cvd) {
                now
            } else {
                self.last_flip_time
            },
        }
    }

    /// A detector that has seen no window.
    pub fn new() -> (state: FlipState)
        ensures
            state == FlipState::initial(),
    {
        FlipState { prev_sign: 0, last_flip_time: 0 }
    }

    /// Looks at the delta at the end of a window: reports a flip where its
    /// sign crossed zero and the cooldown has passed, and remembers the sign.
    pub fn detect(&mut self, now: u64, cvd: i64, before: i64) -> (flip: Option<DeltaFlip>)
        ensures
            flip == old(self).spec_flip(now, cvd, before),
            *final(self) == old(self).spec_next(now, cvd),
    {
        let current = sign(cvd);
        let flip = if self.prev_sign != 0 && current != 0 && self.prev_sign != current && elapsed(
            self.last_flip_time,
            now,
            FLIP_COOLDOWN_MS,
        ) {
            self.last_flip_time = now;
            Some(
                DeltaFlip {
                    timestamp: now,
                    flip_type: FlipType::ZeroCross,
                    direction: if current > 0 {
                        Direction::Bullish
                    } else {
                        Direction::Bearish
                    },
                    cvd_before: before,
                    cvd_after: cvd,
                },
            )
        } else {
            None
        };
        self.prev_sign = current;
        flip
    }
}

/// After a flip at `now` no delta flips before the cooldown has passed.
pub proof fn flips_keep_their_distance(state: FlipState, now: u64, cvd: i64, later: u64, next_cvd: i64)
    requires
        state.flips(now, cvd),
        state.spec_next(now, cvd).flips(later, next_cvd),
    ensures
        later - now >= FLIP_COOLDOWN_MS,
{
}

/// A detector that has seen no window yet reports no flip.
pub proof fn first_window_never_flips(now: u64, cvd: i64, before: i64)
    ensures
        FlipState::initial().spec_flip(now, cvd, before).is_none(),
{
}

/// The detector after a run of windows, each a time and the delta at it.
pub open spec fn after_windows(state: FlipState, windows: Seq<(u64, i64)>) -> FlipState
    decreases windows.len(),
{
    if windows.len() == 0 {
        state
    } else {
        after_windows(state, windows.drop_last()).spec_next(windows.last().0, windows.last().1)
    }
}

/// Does no window of the run flip?
pub open spec fn quiet(state: FlipState, windows: Seq<(u64, i64)>) -> bool
    decreases windows.len(),
{
    if windows.len() == 0 {
        true
    } else {
        quiet(state, windows.drop_last()) && !after_windows(state, windows.drop_last()).flips(
            windows.last().0,
            windows.last().1,
        )
    }
}

proof fn lemma_quiet_keeps_the_time(state: FlipState, windows: Seq<(u64, i64)>)
    requires
        quiet(state, windows),
    ensures
        after_windows(state, windows).last_flip_time == state.last_flip_time,
    decreases windows.len(),
{
    if windows.len() > 0 {
        lemma_quiet_keeps_the_time(state, windows.drop_last());
    }
}

/// Between a flip and the next flip, however many windows lie in between,
/// the cooldown has passed.
pub proof fn any_two_flips_keep_their_distance(
    state: FlipState,
    now: u64,
    cvd: i64,
    between: Seq<(u64, i64)>,
    later: u64,
    next_cvd: i64,
)
    requires
        state.flips(now, cvd),
        quiet(state.spec_next(now, cvd), between),
        after_windows(state.spec_next(now, cvd), between).flips(later, next_cvd),
    ensures
        later - now >= FLIP_COOLDOWN_MS,
{
    lemma_quiet_keeps_the_time(state.spec_next(now, cvd), between);
}

/// The delta of five seconds ago is the delta of the latest sample that is
/// five seconds old or older.
pub proof fn five_seconds_ago_is_the_latest_old_sample(
    history: Seq<CvdSample>,
    now: u64,
    current: i64,
    i: int,
)
    requires
        0 <= i < history.len(),
        spec_elapsed(history[i].timestamp, now, CVD_TREND_MS),
        forall|j: int|
            i < j < history.len() ==> !spec_elapsed((#[trigger] history[j]).timestamp, now, CVD_TREND_MS),
    ensures
        spec_cvd_5s_ago(history, now, current) == history[i].cvd,
    decreases history.len(),
{
    if i < history.len() - 1 {
        let rest = history.drop_last();
        assert(!spec_elapsed(history[history.len() - 1].timestamp, now, CVD_TREND_MS));
        assert forall|j: int| i < j < rest.len() implies !spec_elapsed(
            (#[trigger] rest[j]).timestamp,
            now,
            CVD_TREND_MS,
        ) by {
            assert(rest[j] == history[j]);
        }
        five_seconds_ago_is_the_latest_old_sample(rest, now, current, i);
    }
}

/// In a history in time order the delta of five seconds ago is the delta of
/// a sample that is five seconds old and that no sample five seconds old was
/// taken after: the sample of the greatest time among them, and the last of
/// those taken at that time. Where no sample is five seconds old it is the
/// current delta.
pub proof fn five_seconds_ago_is_the_sample_of_the_greatest_time(
    history: Seq<CvdSample>,
    clock: u64,
    now: u64,
    current: i64,
)
    requires
        in_time_order(history, clock),
    ensures
        (forall|j: int|
            0 <= j < history.len() ==> !spec_elapsed((#[trigger] history[j]).timestamp, now, CVD_TREND_MS))
            ==> spec_cvd_5s_ago(history, now, current) == current,
        (exists|j: int|
            0 <= j < history.len() && spec_elapsed((#[trigger] history[j]).timestamp, now, CVD_TREND_MS))
            ==> exists|k: int|
            {
                &&& 0 <= k < history.len()
                &&& spec_elapsed((#[trigger] history[k]).timestamp, now, CVD_TREND_MS)
                &&& spec_cvd_5s_ago(history, now, current) == history[k].cvd
                &&& forall|j: int|
                    0 <= j < history.len() && spec_elapsed(
                        (#[trigger] history[j]).timestamp,
                        now,
                        CVD_TREND_MS,
                    ) ==> history[j].timestamp <= history[k].timestamp && j <= k
            },
{
    if forall|j: int|
        0 <= j < history.len() ==> !spec_elapsed((#[trigger] history[j]).timestamp, now, CVD_TREND_MS) {
        five_seconds_ago_falls_back_to_now(history, now, current);
    } else {
        let k = latest_old_sample(history, now);
        lemma_latest_old_sample(history, now);
        five_seconds_ago_is_the_latest_old_sample(history, now, current, k);
        assert forall|j: int|
            0 <= j < history.len() && spec_elapsed(
                (#[trigger] history[j]).timestamp,
                now,
                CVD_TREND_MS,
            ) implies history[j].timestamp <= history[k].timestamp && j <= k by {
            if j > k {
                assert(!spec_elapsed(history[j].timestamp, now, CVD_TREND_MS));
            }
            assert(history[j].stamp() <= history[k].stamp());
        }
        assert(spec_elapsed(history[k].timestamp, now, CVD_TREND_MS));
    }
}

/// Index of the last sample that is five seconds old at `now`; -1 where
/// there is none.
pub open spec fn latest_old_sample(history: Seq<CvdSample>, now: u64) -> int
    decreases history.len(),
{
    if history.len() == 0 {
        -1
    } else if spec_elapsed(history.last().timestamp, now, CVD_TREND_MS) {
        history.len() - 1
    } else {
        latest_old_sample(history.drop_last(), now)
    }
}

proof fn lemma_latest_old_sample(history: Seq<CvdSample>, now: u64)
    ensures
        -1 <= latest_old_sample(history, now) < history.len(),
        latest_old_sample(history, now) >= 0 ==> spec_elapsed(
            history[latest_old_sample(history, now)].timestamp,
            now,
            CVD_TREND_MS,
        ),
        forall|j: int|
            latest_old_sample(history, now) < j < history.len() ==> !spec_elapsed(
                (#[trigger] history[j]).timestamp,
                now,
                CVD_TREND_MS,
            ),
    decreases history.len(),
{
    if history.len() > 0 && !spec_elapsed(history.last().timestamp, now, CVD_TREND_MS) {
        let rest = history.drop_last();
        lemma_latest_old_sample(rest, now);
        let k = latest_old_sample(rest, now);
        if k >= 0 {
            assert(rest[k] == history[k]);
        }
        assert forall|j: int| k < j < history.len() implies !spec_elapsed(
            (#[trigger] history[j]).timestamp,
            now,
            CVD_TREND_MS,
        ) by {
            if j < rest.len() {
                assert(rest[j] == history[j]);
            }
        }
    }
}

/// Where no sample is five seconds old, the delta of five seconds ago is the
/// current delta.
pub proof fn five_seconds_ago_falls_back_to_now(history: Seq<CvdSample>, now: u64, current: i64)
    requires
        forall|j: int|
            0 <= j < history.len() ==> !spec_elapsed((#[trigger] history[j]).timestamp, now, CVD_TREND_MS),
    ensures
        spec_cvd_5s_ago(history, now, current) == current,
    decreases history.len(),
{
    if history.len() > 0 {
        let rest = history.drop_last();
        assert(!spec_elapsed(history[history.len() - 1].timestamp, now, CVD_TREND_MS));
        assert forall|j: int| 0 <= j < rest.len() implies !spec_elapsed(
            (#[trigger] rest[j]).timestamp,
            now,
            CVD_TREND_MS,
        ) by {
            assert(rest[j] == history[j]);
        }
        five_seconds_ago_falls_back_to_now(rest, now, current);
    }
}

} // verus!
