//! Absorption: a window whose net volume is large against the recent volume
//! and yet does not move the price, and the zones where that keeps happening.

use vstd::prelude::*;
use crate::price::{bucket_price, on_tick, spec_bucket_price, valid_price, TICK};
use crate::profile::{at_levels, spec_at_any_level, spec_at_levels, KeyLevels};
use crate::retention::{kept, kept_are_entries, spec_within, within, Retained, Stamped};
use crate::types::{AbsorptionEvent, AbsorptionType, AbsorptionZone, Strength};

verus! {

/// How long a window's volume stays in the history, in milliseconds.
pub const VOLUME_HISTORY_MS: u64 = 60_000;

/// The stretch of history that the threshold averages over, in milliseconds.
pub const VOLUME_AVERAGE_MS: u64 = 30_000;

/// Least net volume of an absorbing window, whatever the recent volume.
pub const MIN_DELTA: u64 = 20;

/// Least net volume of an absorbing window where no recent volume is known:
/// 40 % of 200 contracts a second.
pub const DEFAULT_MIN_DELTA: u64 = 80;

/// A delta trend beyond this, either way, counts as a trend.
pub const TREND_THRESHOLD: i64 = 100;

/// How long a weak or medium zone outlives its last event, in milliseconds.
pub const WEAK_ZONE_MS: u64 = 300_000;

/// How long a strong zone outlives its last event, in milliseconds.
pub const STRONG_ZONE_MS: u64 = 900_000;

/// How long a defended zone outlives its last event, in milliseconds.
pub const DEFENDED_ZONE_MS: u64 = 1_800_000;

/// Volume and delta of one window.
#[derive(Clone, Copy, Debug, PartialEq, Eq)]
pub struct VolumeSnapshot {
    pub timestamp: u64,
    pub volume: u64,
    pub delta: i64,
}

impl Retained for VolumeSnapshot {
    open spec fn spec_keep(&self, now: u64) -> bool {
        spec_within(self.timestamp, now, VOLUME_HISTORY_MS)
    }

    fn keep(&self, now: u64) -> (stays: bool) {
        within(self.timestamp, now, VOLUME_HISTORY_MS)
    }

    proof fn keep_is_monotone(&self, earlier: u64, later: u64) {
    }
}

impl Stamped for VolumeSnapshot {
    open spec fn stamp(&self) -> u64 {
        self.timestamp
    }
}

/// Volume of the windows of the last `VOLUME_AVERAGE_MS`.
pub open spec fn recent_volume(history: Seq<VolumeSnapshot>, now: u64) -> nat
    decreases history.len(),
{
    if history.len() == 0 {
        0
    } else {
        recent_volume(history.drop_last(), now) + if spec_within(
            history.last().timestamp,
            now,
            VOLUME_AVERAGE_MS,
        ) {
            history.last().volume as nat
        } else {
            0
        }
    }
}

/// Number of windows of the last `VOLUME_AVERAGE_MS`.
pub open spec fn recent_windows(history: Seq<VolumeSnapshot>, now: u64) -> nat
    decreases history.len(),
{
    if history.len() == 0 {
        0
    } else {
        recent_windows(history.drop_last(), now) + if spec_within(
            history.last().timestamp,
            now,
            VOLUME_AVERAGE_MS,
        ) {
            1nat
        } else {
            0nat
        }
    }
}

/// Is a net volume of `abs_delta` large enough to count? The bar is 40 % of
/// the average volume per second over the last thirty seconds, and no lower
/// than `MIN_DELTA`; with no window in those thirty seconds the average is
/// taken to be 200. With `v` the volume of the thirty seconds, `abs_delta >=
/// 0.4 * v / 30` is `abs_delta * 75 >= v`.
pub open spec fn spec_min_delta_met(history: Seq<VolumeSnapshot>, now: u64, abs_delta: u64) -> bool {
    if recent_windows(history, now) == 0 {
        abs_delta >= DEFAULT_MIN_DELTA
    } else {
        abs_delta * 75 >= recent_volume(history, now) && abs_delta >= MIN_DELTA
    }
}

/// Is a net volume of `abs_delta` large enough to count at time `now`?
pub fn min_delta_met(history: &Vec<VolumeSnapshot>, now: u64, abs_delta: u64) -> (met: bool)
    ensures
        met == spec_min_delta_met(history@, now, abs_delta),
{
    let mut volume: u128 = 0;
    let mut windows: usize = 0;
    let mut i: usize = 0;
    while i < history.len()
        invariant
            0 <= i <= history.len(),
            volume == recent_volume(history@.take(i as int), now),
            windows == recent_windows(history@.take(i as int), now),
            windows <= i,
            volume <= i * 0x1_0000_0000_0000_0000,
        decreases history.len() - i,
    {
        proof {
            assert(history@.take(i + 1).drop_last() =~= history@.take(i as int));
        }
        if within(history[i].timestamp, now, VOLUME_AVERAGE_MS) {
            volume = volume + history[i].volume as u128;
            windows = windows + 1;
        }
        i += 1;
    }
    proof {
        assert(history@.take(i as int) =~= history@);
    }
    if windows == 0 {
        abs_delta >= DEFAULT_MIN_DELTA
    } else {
        abs_delta as u128 * 75 >= volume && abs_delta >= MIN_DELTA
    }
}

/// Which pressure a window absorbed, if any: buying where the delta is
/// positive and the price rose by a tick at most, selling where the delta is
/// negative and the price fell by a tick at most.
pub open spec fn spec_absorbed(delta: i64, price_change: i64) -> Option<AbsorptionType> {
    if delta > 0 && price_change <= TICK {
        Some(AbsorptionType::Buying)
    } else if delta < 0 && price_change >= -TICK {
        Some(AbsorptionType::Selling)
    } else {
        None
    }
}

/// Which pressure a window absorbed, if any.
pub fn absorbed(delta: i64, price_change: i64) -> (kind: Option<AbsorptionType>)
    ensures
        kind == spec_absorbed(delta, price_change),
{
    if delta > 0 && price_change <= TICK {
        Some(AbsorptionType::Buying)
    } else if delta < 0 && price_change >= -TICK {
        Some(AbsorptionType::Selling)
    } else {
        None
    }
}

/// The delta trend: how far the delta has come in five seconds.
pub open spec fn spec_cvd_trend(cvd: i64, before: i64) -> int {
    cvd - before
}

/// Does an absorption of `kind` stand against a delta trend of `trend`?
/// Buying absorbed while the delta climbs, or selling while it falls.
pub open spec fn spec_against_trend(kind: AbsorptionType, trend: int) -> bool {
    match kind {
        AbsorptionType::Buying => trend > TREND_THRESHOLD,
        AbsorptionType::Selling => trend < -TREND_THRESHOLD,
    }
}

/// Does an absorption of `kind` stand against the delta trend?
pub fn against_trend(kind: AbsorptionType, cvd: i64, before: i64) -> (against: bool)
    ensures
        against == spec_against_trend(kind, spec_cvd_trend(cvd, before)),
{
    let trend: i128 = cvd as i128 - before as i128;
    match kind {
        AbsorptionType::Buying => trend > TREND_THRESHOLD as i128,
        AbsorptionType::Selling => trend < -(TREND_THRESHOLD as i128),
    }
}

/// Strength of a zone's event: one step for each event after the first, up
/// to three, one more at a key level, one more against the trend; anything
/// from three on is defended.
pub open spec fn spec_strength(event_count: u64, at_key_level: bool, against_trend: bool) -> Strength {
    let base: int = if event_count >= 4 {
        3
    } else if event_count >= 1 {
        event_count - 1
    } else {
        3
    };
    Strength::spec_from_ordinal(
        base + if at_key_level { 1int } else { 0int } + if against_trend { 1int } else { 0int },
    )
}

/// Strength of a zone's event from its count and its context.
pub fn calculate_strength(event_count: u64, at_key_level: bool, against_trend: bool) -> (strength:
    Strength)
    ensures
        strength == spec_strength(event_count, at_key_level, against_trend),
{
    let base: u8 = if event_count == 1 {
        0
    } else if event_count == 2 {
        1
    } else if event_count == 3 {
        2
    } else {
        3
    };
    let bonus: u8 = if at_key_level { 1u8 } else { 0u8 } + if against_trend { 1u8 } else { 0u8 };
    Strength::from_ordinal(base + bonus)
}

/// The stronger of two strengths.
pub open spec fn spec_stronger(a: Strength, b: Strength) -> Strength {
    if b.spec_ordinal() > a.spec_ordinal() {
        b
    } else {
        a
    }
}

/// How long a zone of peak strength `peak` outlives its last event.
pub open spec fn spec_retention(peak: Strength) -> u64 {
    match peak {
        Strength::Weak => WEAK_ZONE_MS,
        Strength::Medium => WEAK_ZONE_MS,
        Strength::Strong => STRONG_ZONE_MS,
        Strength::Defended => DEFENDED_ZONE_MS,
    }
}

/// How long a zone of peak strength `peak` outlives its last event.
pub fn retention(peak: Strength) -> (age: u64)
    ensures
        age == spec_retention(peak),
{
    match peak {
        Strength::Weak => WEAK_ZONE_MS,
        Strength::Medium => WEAK_ZONE_MS,
        Strength::Strong => STRONG_ZONE_MS,
        Strength::Defended => DEFENDED_ZONE_MS,
    }
}

/// An absorption zone as the engine keeps it.
#[derive(Clone, Copy, Debug, PartialEq, Eq)]
pub struct Zone {
    pub price: i64,
    pub absorption_type: AbsorptionType,
    pub total_absorbed: u64,
    pub event_count: u64,
    pub first_seen: u64,
    pub last_seen: u64,
    pub peak_strength: Strength,
}

impl Retained for Zone {
    open spec fn spec_keep(&self, now: u64) -> bool {
        spec_within(self.last_seen, now, spec_retention(self.peak_strength))
    }

    fn keep(&self, now: u64) -> (stays: bool) {
        within(self.last_seen, now, retention(self.peak_strength))
    }

    proof fn keep_is_monotone(&self, earlier: u64, later: u64) {
    }
}

impl Zone {
    /// A zone as the registry keeps it at time `clock`, when `cap` has been
    /// traded in the windows closed so far.
    pub open spec fn ok(self, clock: u64, cap: int) -> bool {
        &&& on_tick(self.price as int)
        &&& 1 <= self.event_count <= self.total_absorbed <= cap
        &&& self.first_seen <= self.last_seen <= clock
    }

    /// A zone at `price` before its first event.
    pub open spec fn opened(price: i64, now: u64, kind: AbsorptionType) -> Zone {
        Zone {
            price,
            absorption_type: kind,
            total_absorbed: 0,
            event_count: 0,
            first_seen: now,
            last_seen: now,
            peak_strength: Strength::Weak,
        }
    }

    /// The zone after one more event.
    pub open spec fn hit(
        self,
        now: u64,
        kind: AbsorptionType,
        abs_delta: u64,
        at_key_level: bool,
        against_trend: bool,
    ) -> Zone {
        let count = (self.event_count + 1) as u64;
        Zone {
            price: self.price,
            absorption_type: kind,
            total_absorbed: (self.total_absorbed + abs_delta) as u64,
            event_count: count,
            first_seen: self.first_seen,
            last_seen: now,
            peak_strength: spec_stronger(
                self.peak_strength,
                spec_strength(count, at_key_level, against_trend),
            ),
        }
    }

    /// The zone as subscribers see it: its strength is its peak strength,
    /// its flags are taken anew from the levels and the trend of the moment.
    pub open spec fn spec_report(self, marks: Option<KeyLevels>, trend: int) -> AbsorptionZone {
        let (at_poc, at_vah, at_val) = spec_at_levels(marks, self.price as int);
        AbsorptionZone {
            price: self.price,
            absorption_type: self.absorption_type,
            total_absorbed: self.total_absorbed,
            event_count: self.event_count,
            first_seen: self.first_seen,
            last_seen: self.last_seen,
            strength: self.peak_strength,
            at_poc,
            at_vah,
            at_val,
            against_trend: spec_against_trend(self.absorption_type, trend),
        }
    }

    /// The zone as subscribers see it.
    pub fn report(&self, marks: &Option<KeyLevels>, cvd: i64, before: i64) -> (zone: AbsorptionZone)
        ensures
            zone == self.spec_report(*marks, spec_cvd_trend(cvd, before)),
    {
        let (at_poc, at_vah, at_val) = at_levels(marks, self.price);
        AbsorptionZone {
            price: self.price,
            absorption_type: self.absorption_type,
            total_absorbed: self.total_absorbed,
            event_count: self.event_count,
            first_seen: self.first_seen,
            last_seen: self.last_seen,
            strength: self.peak_strength,
            at_poc,
            at_vah,
            at_val,
            against_trend: against_trend(self.absorption_type, cvd, before),
        }
    }
}

/// Index of the zone at `price`; the number of zones where there is none.
pub open spec fn position(zones: Seq<Zone>, price: i64) -> int
    decreases zones.len(),
{
    if zones.len() == 0 {
        0
    } else {
        let p = position(zones.drop_last(), price);
        if p < zones.len() - 1 {
            p
        } else if zones.last().price == price {
            zones.len() - 1
        } else {
            zones.len() as int
        }
    }
}

/// The zones as the registry keeps them: each in order, no two at one price.
pub open spec fn zones_wf(zones: Seq<Zone>, clock: u64, cap: int) -> bool {
    &&& forall|i: int| 0 <= i < zones.len() ==> (#[trigger] zones[i]).ok(clock, cap)
    &&& forall|i: int, j: int|
        0 <= i < j < zones.len() ==> (#[trigger] zones[i]).price != (#[trigger] zones[j]).price
}

/// The zones after an absorption of `abs_delta` at `price`: the zone there
/// takes the event, or a new zone opens with it.
pub open spec fn spec_absorb(
    zones: Seq<Zone>,
    price: i64,
    now: u64,
    kind: AbsorptionType,
    abs_delta: u64,
    at_key_level: bool,
    against_trend: bool,
) -> Seq<Zone> {
    let i = position(zones, price);
    if i < zones.len() {
        zones.update(i, zones[i].hit(now, kind, abs_delta, at_key_level, against_trend))
    } else {
        zones.push(Zone::opened(price, now, kind).hit(now, kind, abs_delta, at_key_level, against_trend))
    }
}

/// The zone that took the event.
pub open spec fn spec_struck(
    zones: Seq<Zone>,
    price: i64,
    now: u64,
    kind: AbsorptionType,
    abs_delta: u64,
    at_key_level: bool,
    against_trend: bool,
) -> Zone {
    spec_absorb(zones, price, now, kind, abs_delta, at_key_level, against_trend)[position(
        zones,
        price,
    )]
}

/// The event that a zone's latest absorption is announced with, if it is:
/// any event stronger than weak, and a first event at a key level.
pub open spec fn spec_event(
    zone: Zone,
    delta: i64,
    price_change: i64,
    at_key_level: bool,
    against_trend: bool,
) -> Option<AbsorptionEvent> {
    let strength = spec_strength(zone.event_count, at_key_level, against_trend);
    if strength != Strength::Weak || (zone.event_count == 1 && at_key_level) {
        Some(
            AbsorptionEvent {
                timestamp: zone.last_seen,
                price: zone.price,
                absorption_type: zone.absorption_type,
                delta,
                price_change,
                strength,
                event_count: zone.event_count,
                total_absorbed: zone.total_absorbed,
                at_key_level,
                against_trend,
            },
        )
    } else {
        None
    }
}

/// The zones that subscribers are told of: those with two events or more.
pub open spec fn spec_zone_reports(zones: Seq<Zone>, marks: Option<KeyLevels>, trend: int) -> Seq<
    AbsorptionZone,
>
    decreases zones.len(),
{
    if zones.len() == 0 {
        Seq::empty()
    } else {
        let rest = spec_zone_reports(zones.drop_last(), marks, trend);
        if zones.last().event_count >= 2 {
            rest.push(zones.last().spec_report(marks, trend))
        } else {
            rest
        }
    }
}

proof fn lemma_position(zones: Seq<Zone>, price: i64, i: int)
    requires
        0 <= i <= zones.len(),
        forall|j: int| 0 <= j < i ==> (#[trigger] zones[j]).price != price,
        i < zones.len() ==> zones[i].price == price,
    ensures
        position(zones, price) == i,
    decreases zones.len(),
{
    if zones.len() > 0 {
        let rest = zones.drop_last();
        if i == zones.len() {
            assert forall|j: int| 0 <= j < i - 1 implies (#[trigger] rest[j]).price != price by {
                assert(rest[j] == zones[j]);
            }
            lemma_position(rest, price, i - 1);
            assert(zones[zones.len() - 1].price != price);
        } else {
            assert forall|j: int| 0 <= j < i implies (#[trigger] rest[j]).price != price by {
                assert(rest[j] == zones[j]);
            }
            lemma_position(rest, price, i);
        }
    }
}

/// Index of the zone at `price`; the number of zones where there is none.
pub fn find_zone(zones: &Vec<Zone>, price: i64) -> (i: usize)
    ensures
        i == position(zones@, price),
        i <= zones@.len(),
        i < zones@.len() ==> zones@[i as int].price == price,
        forall|j: int| 0 <= j < i ==> (#[trigger] zones@[j]).price != price,
{
    let mut i: usize = 0;
    while i < zones.len() && zones[i].price != price
        invariant
            0 <= i <= zones.len(),
            forall|j: int| 0 <= j < i ==> (#[trigger] zones@[j]).price != price,
        decreases zones.len() - i,
    {
        i += 1;
    }
    proof {
        lemma_position(zones@, price, i as int);
    }
    i
}

/// Books an absorption of `abs_delta` at the bucket `price` and hands back
/// the zone that took it.
pub fn absorb(
    zones: &mut Vec<Zone>,
    price: i64,
    now: u64,
    kind: AbsorptionType,
    abs_delta: u64,
    at_key_level: bool,
    against_trend: bool,
) -> (zone: Zone)
    requires
        exists|cap: int|
            0 <= cap && cap + abs_delta <= u64::MAX && #[trigger] zones_wf(old(zones)@, now, cap),
        on_tick(price as int),
        abs_delta >= 1,
    ensures
        final(zones)@ == spec_absorb(
            old(zones)@,
            price,
            now,
            kind,
            abs_delta,
            at_key_level,
            against_trend,
        ),
        zone == spec_struck(old(zones)@, price, now, kind, abs_delta, at_key_level, against_trend),
        forall|cap: int|
            0 <= cap && #[trigger] zones_wf(old(zones)@, now, cap) ==> zones_wf(
                final(zones)@,
                now,
                cap + abs_delta,
            ),
{
    let ghost room = choose|cap: int|
        0 <= cap && cap + abs_delta <= u64::MAX && #[trigger] zones_wf(old(zones)@, now, cap);
    let i = find_zone(zones, price);
    let before = if i < zones.len() {
        zones[i]
    } else {
        Zone {
            price,
            absorption_type: kind,
            total_absorbed: 0,
            event_count: 0,
            first_seen: now,
            last_seen: now,
            peak_strength: Strength::Weak,
        }
    };
    proof {
        if i < zones.len() {
            assert(zones@[i as int].ok(now, room));
        }
    }
    let count = before.event_count + 1;
    let strength = calculate_strength(count, at_key_level, against_trend);
    let zone = Zone {
        price: before.price,
        absorption_type: kind,
        total_absorbed: before.total_absorbed + abs_delta,
        event_count: count,
        first_seen: before.first_seen,
        last_seen: now,
        peak_strength: if strength.ordinal() > before.peak_strength.ordinal() {
            strength
        } else {
            before.peak_strength
        },
    };
    if i < zones.len() {
        zones[i] = zone;
    } else {
        zones.push(zone);
    }
    proof {
        let after = zones@;
        assert forall|cap: int| 0 <= cap && #[trigger] zones_wf(old(zones)@, now, cap) implies zones_wf(
            after,
            now,
            cap + abs_delta,
        ) by {
            assert forall|k: int| 0 <= k < after.len() implies (#[trigger] after[k]).ok(
                now,
                cap + abs_delta,
            ) by {
                if k != i {
                    assert(after[k] == old(zones)@[k]);
                    assert(old(zones)@[k].ok(now, cap));
                } else {
                    assert(after[k] == zone);
                    if i < old(zones)@.len() {
                        assert(old(zones)@[k].ok(now, cap));
                    }
                }
            }
            assert forall|k: int, l: int| 0 <= k < l < after.len() implies (#[trigger] after[k]).price
                != (#[trigger] after[l]).price by {
                if k != i && l != i {
                    assert(old(zones)@[k].price != old(zones)@[l].price);
                } else if i < old(zones)@.len() {
                    assert(old(zones)@[k].price != old(zones)@[l].price);
                }
            }
        }
    }
    zone
}

/// The event that a zone's latest absorption is announced with, if it is.
pub fn absorption_event(
    zone: &Zone,
    delta: i64,
    price_change: i64,
    at_key_level: bool,
    against_trend: bool,
) -> (event: Option<AbsorptionEvent>)
    ensures
        event == spec_event(*zone, delta, price_change, at_key_level, against_trend),
{
    let strength = calculate_strength(zone.event_count, at_key_level, against_trend);
    if strength.ordinal() != 0 || (zone.event_count == 1 && at_key_level) {
        Some(
            AbsorptionEvent {
                timestamp: zone.last_seen,
                price: zone.price,
                absorption_type: zone.absorption_type,
                delta,
                price_change,
                strength,
                event_count: zone.event_count,
                total_absorbed: zone.total_absorbed,
                at_key_level,
                against_trend,
            },
        )
    } else {
        None
    }
}

/// An absorption that a window's figures call for.
pub struct AbsorptionPlan {
    pub kind: AbsorptionType,
    pub abs_delta: u64,
    pub at_key_level: bool,
    pub against_trend: bool,
    pub price: i64,
}

/// Size of a delta, whatever its sign.
pub open spec fn spec_abs(delta: i64) -> u64 {
    (if delta >= 0 {
        delta as int
    } else {
        -delta
    }) as u64
}

/// The absorption that a window calls for, if it does: its delta of `delta`
/// did not move the price its way by more than a tick, and is large against
/// the recent volume. It is booked at the bucket of the window's `price`;
/// its flags look at that price and at the delta trend.
pub open spec fn spec_plan(
    delta: i64,
    price_change: i64,
    price: i64,
    history: Seq<VolumeSnapshot>,
    now: u64,
    cvd: i64,
    before: i64,
    marks: Option<KeyLevels>,
) -> Option<AbsorptionPlan> {
    match spec_absorbed(delta, price_change) {
        Some(kind) => if spec_min_delta_met(history, now, spec_abs(delta)) {
            Some(
                AbsorptionPlan {
                    kind,
                    abs_delta: spec_abs(delta),
                    at_key_level: spec_at_any_level(marks, price as int),
                    against_trend: spec_against_trend(kind, spec_cvd_trend(cvd, before)),
                    price: spec_bucket_price(price as int) as i64,
                },
            )
        } else {
            None
        },
        None => None,
    }
}

/// The zones once a window's absorption is booked.
pub open spec fn spec_zones_after(zones: Seq<Zone>, plan: Option<AbsorptionPlan>, now: u64) -> Seq<Zone> {
    match plan {
        Some(p) => spec_absorb(zones, p.price, now, p.kind, p.abs_delta, p.at_key_level, p.against_trend),
        None => zones,
    }
}

/// The event that a window's absorption is announced with, if it is.
pub open spec fn spec_plan_event(
    zones: Seq<Zone>,
    plan: Option<AbsorptionPlan>,
    delta: i64,
    price_change: i64,
    now: u64,
) -> Option<AbsorptionEvent> {
    match plan {
        Some(p) => spec_event(
            spec_struck(zones, p.price, now, p.kind, p.abs_delta, p.at_key_level, p.against_trend),
            delta,
            price_change,
            p.at_key_level,
            p.against_trend,
        ),
        None => None,
    }
}

/// Looks at a window's figures, books the absorption they call for, and
/// reports the event it is announced with.
pub fn detect_absorption(
    zones: &mut Vec<Zone>,
    history: &Vec<VolumeSnapshot>,
    marks: &Option<KeyLevels>,
    delta: i64,
    price_change: i64,
    price: i64,
    now: u64,
    cvd: i64,
    before: i64,
) -> (event: Option<AbsorptionEvent>)
    requires
        valid_price(price as int),
        exists|cap: int|
            0 <= cap && cap + spec_abs(delta) <= u64::MAX && #[trigger] zones_wf(
                old(zones)@,
                now,
                cap,
            ),
    ensures
        final(zones)@ == spec_zones_after(
            old(zones)@,
            spec_plan(delta, price_change, price, history@, now, cvd, before, *marks),
            now,
        ),
        event == spec_plan_event(
            old(zones)@,
            spec_plan(delta, price_change, price, history@, now, cvd, before, *marks),
            delta,
            price_change,
            now,
        ),
        forall|cap: int|
            0 <= cap && #[trigger] zones_wf(old(zones)@, now, cap) ==> zones_wf(
                final(zones)@,
                now,
                cap + spec_abs(delta),
            ),
        event.is_some() ==> on_tick(event.unwrap().price as int),
{
    let abs_delta: u64 = if delta >= 0 {
        delta as u64
    } else {
        (-(delta as i128)) as u64
    };
    proof {
        assert forall|cap: int| 0 <= cap && #[trigger] zones_wf(old(zones)@, now, cap) implies zones_wf(
            old(zones)@,
            now,
            cap + abs_delta,
        ) by {
            assert forall|i: int| 0 <= i < old(zones)@.len() implies (#[trigger] old(zones)@[i]).ok(
                now,
                cap + abs_delta,
            ) by {
                assert(old(zones)@[i].ok(now, cap));
            }
        }
    }
    match absorbed(delta, price_change) {
        Some(kind) => {
            if min_delta_met(history, now, abs_delta) {
                let (at_poc, at_vah, at_val) = at_levels(marks, price);
                let at_key_level = at_poc || at_vah || at_val;
                let against = against_trend(kind, cvd, before);
                let bucket = bucket_price(price);
                let zone = absorb(zones, bucket, now, kind, abs_delta, at_key_level, against);
                proof {
                    lemma_position_is_first(old(zones)@, bucket);
                    if position(old(zones)@, bucket) < old(zones)@.len() {
                        let cap = choose|cap: int|
                            0 <= cap && cap + spec_abs(delta) <= u64::MAX && #[trigger] zones_wf(
                                old(zones)@,
                                now,
                                cap,
                            );
                        assert(old(zones)@[position(old(zones)@, bucket)].ok(now, cap));
                    }
                }
                absorption_event(&zone, delta, price_change, at_key_level, against)
            } else {
                None
            }
        },
        None => None,
    }
}

/// The zones with two events or more, as subscribers see them.
pub fn zone_reports(zones: &Vec<Zone>, marks: &Option<KeyLevels>, cvd: i64, before: i64) -> (reports:
    Vec<AbsorptionZone>)
    ensures
        reports@ == spec_zone_reports(zones@, *marks, spec_cvd_trend(cvd, before)),
{
    let mut reports: Vec<AbsorptionZone> = Vec::new();
    let mut i: usize = 0;
    while i < zones.len()
        invariant
            0 <= i <= zones.len(),
            reports@ == spec_zone_reports(
                zones@.take(i as int),
                *marks,
                spec_cvd_trend(cvd, before),
            ),
        decreases zones.len() - i,
    {
        proof {
            assert(zones@.take(i + 1).drop_last() =~= zones@.take(i as int));
        }
        if zones[i].event_count >= 2 {
            reports.push(zones[i].report(marks, cvd, before));
        }
        i += 1;
    }
    proof {
        assert(zones@.take(i as int) =~= zones@);
    }
    reports
}

/// Zones that were in order stay in order when time moves on and zones whose
/// time is up are dropped.
pub proof fn expiry_keeps_zones_in_order(zones: Seq<Zone>, clock: u64, cap: int, now: u64)
    requires
        zones_wf(zones, clock, cap),
        clock <= now,
    ensures
        zones_wf(kept(zones, now), now, cap),
    decreases zones.len(),
{
    if zones.len() > 0 {
        let rest = zones.drop_last();
        let last = zones.last();
        assert(zones_wf(rest, clock, cap)) by {
            assert forall|i: int| 0 <= i < rest.len() implies (#[trigger] rest[i]).ok(clock, cap) by {
                assert(rest[i] == zones[i]);
            }
            assert forall|i: int, j: int| 0 <= i < j < rest.len() implies (#[trigger] rest[i]).price
                != (#[trigger] rest[j]).price by {
                assert(rest[i] == zones[i] && rest[j] == zones[j]);
            }
        }
        expiry_keeps_zones_in_order(rest, clock, cap, now);
        kept_are_entries(rest, now);
        let stay = kept(rest, now);
        if last.spec_keep(now) {
            let after = stay.push(last);
            assert(zones[zones.len() - 1].ok(clock, cap));
            assert forall|i: int, j: int| 0 <= i < j < after.len() implies (#[trigger] after[i]).price
                != (#[trigger] after[j]).price by {
                if j == stay.len() {
                    assert(rest.contains(stay[i]));
                    let k = choose|k: int| 0 <= k < rest.len() && rest[k] == stay[i];
                    assert(zones[k].price != zones[zones.len() - 1].price);
                } else {
                    assert(stay[i].price != stay[j].price);
                }
            }
            assert forall|i: int| 0 <= i < after.len() implies (#[trigger] after[i]).ok(now, cap) by {
                if i < stay.len() {
                    assert(stay[i].ok(now, cap));
                }
            }
        }
    }
}

/// An event never lowers a zone's peak strength, and it leaves the zone last
/// seen no earlier than first seen.
pub proof fn peak_strength_never_drops(
    zone: Zone,
    clock: u64,
    cap: int,
    now: u64,
    kind: AbsorptionType,
    abs_delta: u64,
    at_key_level: bool,
    against_trend: bool,
)
    requires
        zone.ok(clock, cap),
        clock <= now,
    ensures
        zone.hit(now, kind, abs_delta, at_key_level, against_trend).peak_strength.spec_ordinal()
            >= zone.peak_strength.spec_ordinal(),
        zone.hit(now, kind, abs_delta, at_key_level, against_trend).last_seen >= zone.hit(
            now,
            kind,
            abs_delta,
            at_key_level,
            against_trend,
        ).first_seen,
{
}

/// Booking an absorption changes one zone at most, and lowers no zone's peak
/// strength.
pub proof fn absorbing_never_weakens(
    zones: Seq<Zone>,
    clock: u64,
    cap: int,
    price: i64,
    now: u64,
    kind: AbsorptionType,
    abs_delta: u64,
    at_key_level: bool,
    against_trend: bool,
    i: int,
)
    requires
        zones_wf(zones, clock, cap),
        clock <= now,
        0 <= i < zones.len(),
    ensures
        ({
            let after = spec_absorb(zones, price, now, kind, abs_delta, at_key_level, against_trend);
            &&& i < after.len()
            &&& after[i].price == zones[i].price
            &&& after[i].first_seen == zones[i].first_seen
            &&& after[i].peak_strength.spec_ordinal() >= zones[i].peak_strength.spec_ordinal()
            &&& after[i].last_seen >= after[i].first_seen
            &&& zones[i].price != price ==> after[i] == zones[i]
        }),
{
    lemma_position_is_first(zones, price);
    assert(zones[i].ok(clock, cap));
}

/// The position of a price is the index of the first zone at it.
pub proof fn lemma_position_is_first(zones: Seq<Zone>, price: i64)
    ensures
        0 <= position(zones, price) <= zones.len(),
        position(zones, price) < zones.len() ==> zones[position(zones, price)].price == price,
        forall|j: int| 0 <= j < position(zones, price) ==> (#[trigger] zones[j]).price != price,
    decreases zones.len(),
{
    if zones.len() > 0 {
        let rest = zones.drop_last();
        lemma_position_is_first(rest, price);
        assert forall|j: int| 0 <= j < position(zones, price) implies (#[trigger] zones[j]).price
            != price by {
            if j < rest.len() {
                assert(rest[j] == zones[j]);
            }
        }
    }
}

/// A defended zone stays for thirty minutes after its last event, a weak one
/// for five.
pub proof fn zones_stay_by_their_peak(zone: Zone, now: u64)
    ensures
        zone.peak_strength == Strength::Defended ==> (zone.spec_keep(now) <==> now - zone.last_seen
            <= 1_800_000),
        zone.peak_strength == Strength::Strong ==> (zone.spec_keep(now) <==> now - zone.last_seen
            <= 900_000),
        zone.peak_strength == Strength::Medium ==> (zone.spec_keep(now) <==> now - zone.last_seen
            <= 300_000),
        zone.peak_strength == Strength::Weak ==> (zone.spec_keep(now) <==> now - zone.last_seen
            <= 300_000),
{
}

} // verus!
