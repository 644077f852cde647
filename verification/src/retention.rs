//! Time-based retention: entries that carry their own rule for how long they
//! stay, and the pass that drops those whose time is up.

use vstd::prelude::*;

verus! {

/// An entry that stays for a limited time.
pub trait Retained: Copy {
    /// Does the entry stay at time `now`?
    spec fn spec_keep(&self, now: u64) -> bool;

    fn keep(&self, now: u64) -> (stays: bool)
        ensures
            stays == self.spec_keep(now),
    ;

    /// An entry that stays at some time stayed at every earlier time.
    proof fn keep_is_monotone(&self, earlier: u64, later: u64)
        requires
            earlier <= later,
            self.spec_keep(later),
        ensures
            self.spec_keep(earlier),
    ;
}

/// An entry that knows when it was taken.
pub trait Stamped: Retained {
    /// The time the entry was taken.
    spec fn stamp(&self) -> u64;
}

/// The entries stand in the order they were taken: none was taken later than
/// one that follows it, and none later than `clock`.
pub open spec fn in_time_order<T: Stamped>(entries: Seq<T>, clock: u64) -> bool {
    &&& forall|i: int, j: int|
        0 <= i <= j < entries.len() ==> (#[trigger] entries[i]).stamp() <= (#[trigger] entries[j]).stamp()
    &&& forall|i: int| 0 <= i < entries.len() ==> (#[trigger] entries[i]).stamp() <= clock
}

/// The entries that stay at time `now`, in their order.
pub open spec fn kept<T: Retained>(entries: Seq<T>, now: u64) -> Seq<T>
    decreases entries.len(),
{
    if entries.len() == 0 {
        entries
    } else {
        let rest = kept(entries.drop_last(), now);
        if entries.last().spec_keep(now) {
            rest.push(entries.last())
        } else {
            rest
        }
    }
}

/// Is `age` milliseconds or less between `then` and `now`? An entry from the
/// future counts as fresh.
pub open spec fn spec_within(then: u64, now: u64, age: u64) -> bool {
    now - then <= age
}

/// Is `age` milliseconds or less between `then` and `now`?
pub fn within(then: u64, now: u64, age: u64) -> (fresh: bool)
    ensures
        fresh == spec_within(then, now, age),
{
    now <= then || now - then <= age
}

/// Have `age` milliseconds or more passed between `then` and `now`?
pub open spec fn spec_elapsed(then: u64, now: u64, age: u64) -> bool {
    now - then >= age
}

/// Have `age` milliseconds or more passed between `then` and `now`?
pub fn elapsed(then: u64, now: u64, age: u64) -> (passed: bool)
    ensures
        passed == spec_elapsed(then, now, age),
{
    now >= then && now - then >= age
}

/// Drops the entries whose time is up at `now`.
pub fn expire<T: Retained>(entries: &mut Vec<T>, now: u64)
    ensures
        final(entries)@ == kept(old(entries)@, now),
{
    let mut stay: Vec<T> = Vec::new();
    let mut i: usize = 0;
    while i < entries.len()
        invariant
            0 <= i <= entries.len(),
            stay@ == kept(entries@.take(i as int), now),
        decreases entries.len() - i,
    {
        let entry = entries[i];
        proof {
            assert(entries@.take(i + 1).drop_last() =~= entries@.take(i as int));
        }
        if entry.keep(now) {
            stay.push(entry);
        }
        i += 1;
    }
    proof {
        assert(entries@.take(i as int) =~= entries@);
    }
    *entries = stay;
}

/// Every entry that stays is one of the entries, and stays at `now`.
pub proof fn kept_are_entries<T: Retained>(entries: Seq<T>, now: u64)
    ensures
        kept(entries, now).len() <= entries.len(),
        forall|i: int|
            0 <= i < kept(entries, now).len() ==> (#[trigger] kept(entries, now)[i]).spec_keep(now)
                && entries.contains(kept(entries, now)[i]),
    decreases entries.len(),
{
    if entries.len() > 0 {
        let rest = entries.drop_last();
        kept_are_entries(rest, now);
        assert forall|i: int| 0 <= i < kept(entries, now).len() implies (#[trigger] kept(
            entries,
            now,
        )[i]).spec_keep(now) && entries.contains(kept(entries, now)[i]) by {
            if i < kept(rest, now).len() {
                let e = kept(rest, now)[i];
                assert(rest.contains(e));
                let j = choose|j: int| 0 <= j < rest.len() && rest[j] == e;
                assert(entries[j] == e);
            } else {
                assert(entries[entries.len() - 1] == entries.last());
            }
        }
    }
}

/// Every entry that stays at `now` is among those kept.
pub proof fn entries_that_stay_are_kept<T: Retained>(entries: Seq<T>, now: u64, i: int)
    requires
        0 <= i < entries.len(),
        entries[i].spec_keep(now),
    ensures
        kept(entries, now).contains(entries[i]),
    decreases entries.len(),
{
    let rest = entries.drop_last();
    let stay = kept(rest, now);
    if i < entries.len() - 1 {
        entries_that_stay_are_kept(rest, now, i);
        let k = choose|k: int| 0 <= k < stay.len() && stay[k] == rest[i];
        if entries.last().spec_keep(now) {
            assert(stay.push(entries.last())[k] == entries[i]);
        }
    } else {
        assert(stay.push(entries.last())[stay.len() as int] == entries[i]);
    }
}

/// Dropping at an earlier time and then at a later time leaves what dropping
/// at the later time alone leaves.
pub proof fn expiry_absorbs_earlier<T: Retained>(entries: Seq<T>, earlier: u64, later: u64)
    requires
        earlier <= later,
    ensures
        kept(kept(entries, earlier), later) == kept(entries, later),
    decreases entries.len(),
{
    if entries.len() > 0 {
        let rest = entries.drop_last();
        let last = entries.last();
        expiry_absorbs_earlier(rest, earlier, later);
        if last.spec_keep(later) {
            last.keep_is_monotone(earlier, later);
        }
        if last.spec_keep(earlier) {
            assert(kept(rest, earlier).push(last).drop_last() =~= kept(rest, earlier));
        }
    }
}

/// Dropping entries leaves the rest in the order they were taken, and a
/// later clock is later than all of them.
pub proof fn expiry_keeps_time_order<T: Stamped>(entries: Seq<T>, clock: u64, now: u64, later: u64)
    requires
        in_time_order(entries, clock),
        clock <= later,
    ensures
        in_time_order(kept(entries, now), later),
    decreases entries.len(),
{
    if entries.len() > 0 {
        let rest = entries.drop_last();
        let last = entries.last();
        assert(in_time_order(rest, clock)) by {
            assert forall|i: int, j: int| 0 <= i <= j < rest.len() implies (#[trigger] rest[i]).stamp() <= (
            #[trigger] rest[j]).stamp() by {
                assert(entries[i].stamp() <= entries[j].stamp());
            }
            assert forall|i: int| 0 <= i < rest.len() implies (#[trigger] rest[i]).stamp() <= clock by {
                assert(entries[i].stamp() <= clock);
            }
        }
        expiry_keeps_time_order(rest, clock, now, later);
        kept_are_entries(rest, now);
        let stay = kept(rest, now);
        let after = kept(entries, now);
        assert(entries[entries.len() - 1].stamp() <= clock);
        if last.spec_keep(now) {
            assert forall|i: int, j: int| 0 <= i <= j < after.len() implies (#[trigger] after[i]).stamp() <= (
            #[trigger] after[j]).stamp() by {
                if j < stay.len() {
                    assert(stay[i].stamp() <= stay[j].stamp());
                } else if i < stay.len() {
                    assert(rest.contains(stay[i]));
                    let k = choose|k: int| 0 <= k < rest.len() && rest[k] == stay[i];
                    assert(entries[k].stamp() <= entries[entries.len() - 1].stamp());
                }
            }
            assert forall|i: int| 0 <= i < after.len() implies (#[trigger] after[i]).stamp() <= later by {
                if i < stay.len() {
                    assert(stay[i].stamp() <= later);
                }
            }
        }
    }
}

/// An entry taken at the time of the clock comes last in time order.
pub proof fn latest_entry_keeps_time_order<T: Stamped>(entries: Seq<T>, clock: u64, entry: T)
    requires
        in_time_order(entries, clock),
        entry.stamp() == clock,
    ensures
        in_time_order(entries.push(entry), clock),
{
    let after = entries.push(entry);
    assert forall|i: int, j: int| 0 <= i <= j < after.len() implies (#[trigger] after[i]).stamp() <= (
    #[trigger] after[j]).stamp() by {
        if j < entries.len() {
            assert(entries[i].stamp() <= entries[j].stamp());
        } else if i < entries.len() {
            assert(entries[i].stamp() <= clock);
        }
    }
    assert forall|i: int| 0 <= i < after.len() implies (#[trigger] after[i]).stamp() <= clock by {
        if i < entries.len() {
            assert(entries[i].stamp() <= clock);
        }
    }
}

/// Where every entry stays, nothing is dropped.
pub proof fn nothing_expires<T: Retained>(entries: Seq<T>, now: u64)
    requires
        forall|i: int| 0 <= i < entries.len() ==> (#[trigger] entries[i]).spec_keep(now),
    ensures
        kept(entries, now) == entries,
    decreases entries.len(),
{
    if entries.len() > 0 {
        let rest = entries.drop_last();
        assert forall|i: int| 0 <= i < rest.len() implies (#[trigger] rest[i]).spec_keep(now) by {
            assert(rest[i] == entries[i]);
        }
        nothing_expires(rest, now);
        assert(entries[entries.len() - 1].spec_keep(now));
        assert(rest.push(entries.last()) =~= entries);
    }
}

} // verus!
