//! The event agenda: a time-ordered collection of pending process tokens
//! with a rebased clock.
//!
//! Stored times are offsets from a private epoch; the public view exposes
//! the absolute firing time of every pending token and the current clock.
//! Keeping the stored magnitudes bounded is what the rebasing maintenance
//! step is for, and the contracts show it never changes the view.

use vstd::multiset::Multiset;
use vstd::prelude::*;

use crate::simulator::process::{SimProcess, State};

verus! {

/// Largest delay a single event may be scheduled ahead of the clock, in
/// micro-units of time.
pub const MAX_DELAY: u64 = 1_000_000_000_000_000;

/// Once the internal offset passes this bound the agenda is rebased, in
/// micro-units of time.
pub const REBASE_LIMIT: u64 = 1_048_576 * 1_000_000;

/// How many tokens of a given state a sequence holds.
pub open spec fn count_with_state(s: Seq<SimProcess>, st: State) -> int
    decreases s.len(),
{
    if s.len() == 0 {
        0
    } else {
        count_with_state(s.drop_last(), st) + if s.last().state == st {
            1int
        } else {
            0int
        }
    }
}

/// A count never leaves `[0, len]`.
pub proof fn lemma_count_with_state_bounds(s: Seq<SimProcess>, st: State)
    ensures
        0 <= count_with_state(s, st) <= s.len(),
    decreases s.len(),
{
    if s.len() > 0 {
        lemma_count_with_state_bounds(s.drop_last(), st);
    }
}

/// Replacing one element adjusts the count by the states swapped in and out.
proof fn lemma_count_with_state_update(s: Seq<SimProcess>, i: int, p: SimProcess, st: State)
    requires
        0 <= i < s.len(),
    ensures
        count_with_state(s.update(i, p), st) == count_with_state(s, st) - (
        if s[i].state == st {
            1int
        } else {
            0int
        }) + (
        if p.state == st {
            1int
        } else {
            0int
        }),
    decreases s.len(),
{
    let u = s.update(i, p);
    if i == s.len() - 1 {
        assert(u.drop_last() =~= s.drop_last());
    } else {
        assert(u.drop_last() =~= s.drop_last().update(i, p));
        lemma_count_with_state_update(s.drop_last(), i, p, st);
    }
}

/// The agenda of pending events, with its rebased clock.
pub struct Scheduler {
    offset: u64,
    agenda: Vec<SimProcess>,
    epoch: Ghost<int>,
}

impl Scheduler {
    /// The current simulated clock: the absolute time of the last pop.
    pub closed spec fn now(self) -> int {
        self.offset as int + self.epoch@
    }

    /// The pending tokens as (absolute firing time, state) pairs, in agenda
    /// order.
    pub closed spec fn entries(self) -> Seq<(int, State)> {
        self.agenda@.map_values(|p: SimProcess| (p.time as int + self.epoch@, p.state))
    }

    /// The pending tokens, without the agenda's internal order.
    pub closed spec fn pending(self) -> Multiset<(int, State)> {
        self.entries().to_multiset()
    }

    /// Number of pending tokens.
    pub closed spec fn len_spec(self) -> int {
        self.agenda@.len() as int
    }

    /// Number of pending tokens in a given state.
    pub closed spec fn count_state(self, st: State) -> int {
        count_with_state(self.agenda@, st)
    }

    /// Every stored time sits between the offset and the offset plus the
    /// largest admissible delay: no pending token fires in the past.
    pub closed spec fn times_ok(self) -> bool {
        forall|i: int|
            0 <= i < self.agenda@.len() ==> self.offset <= (#[trigger] self.agenda@[i]).time
                <= self.offset + MAX_DELAY
    }

    /// Well-formed: consistent times and an offset below the rebase bound.
    pub closed spec fn wf(self) -> bool {
        &&& self.times_ok()
        &&& self.offset <= REBASE_LIMIT
    }

    /// A well-formed agenda can always be rebased: `wf` includes the time
    /// consistency that `clear_offset` asks for.
    pub proof fn lemma_wf_implies_times_ok(self)
        requires
            self.wf(),
        ensures
            self.times_ok(),
    {
    }

    /// There are never more tokens of one state than tokens altogether.
    pub proof fn lemma_count_state_bounds(self, st: State)
        ensures
            0 <= self.count_state(st) <= self.len_spec(),
    {
        lemma_count_with_state_bounds(self.agenda@, st);
    }

    /// An empty agenda with the clock at zero.
    pub fn new() -> (r: Scheduler)
        ensures
            r.wf(),
            r.now() == 0,
            r.len_spec() == 0,
            r.pending() == Multiset::<(int, State)>::empty(),
            forall|st: State| r.count_state(st) == 0,
    {
        let r = Scheduler { offset: 0, agenda: Vec::new(), epoch: Ghost(0) };
        proof {
            assert(r.entries() =~= Seq::<(int, State)>::empty());
            r.entries().to_multiset_ensures();
            assert(r.pending() =~= Multiset::<(int, State)>::empty());
        }
        r
    }

    /// Number of pending tokens.
    pub fn len(&self) -> (r: usize)
        ensures
            r == self.len_spec(),
    {
        self.agenda.len()
    }

    /// Schedules a token `event.time` micro-units after the current clock.
    pub fn add_process(&mut self, event: SimProcess)
        requires
            old(self).wf(),
            event.time <= MAX_DELAY,
        ensures
            final(self).wf(),
            final(self).now() == old(self).now(),
            final(self).len_spec() == old(self).len_spec() + 1,
            final(self).pending() == old(self).pending().insert(
                (old(self).now() + event.time, event.state),
            ),
            forall|st: State|
                #[trigger] final(self).count_state(st) == old(self).count_state(st) + (
                if event.state == st {
                    1int
                } else {
                    0int
                }),
    {
        let stored = SimProcess { state: event.state, time: event.time + self.offset };
        self.agenda.push(stored);
        proof {
            let oldself = *old(self);
            assert(self.entries() =~= oldself.entries().push(
                (oldself.now() + event.time, event.state),
            ));
            oldself.entries().to_multiset_ensures();
            assert(self.pending() =~= oldself.pending().insert(
                (oldself.now() + event.time, event.state),
            ));
            assert(self.agenda@.drop_last() =~= oldself.agenda@);
        }
    }

    /// Removes and returns a token with the smallest firing time; the clock
    /// advances to exactly that time, so consecutive pops never run
    /// backwards.  The returned `time` is the delay since the previous pop.
    pub fn get_process(&mut self) -> (r: SimProcess)
        requires
            old(self).wf(),
            old(self).len_spec() > 0,
        ensures
            final(self).wf(),
            r.time <= MAX_DELAY,
            final(self).now() == old(self).now() + r.time,
            old(self).now() <= final(self).now(),
            old(self).pending().contains((final(self).now(), r.state)),
            forall|e: (int, State)| old(self).pending().count(e) > 0 ==> final(self).now() <= e.0,
            final(self).pending() == old(self).pending().remove((final(self).now(), r.state)),
            final(self).len_spec() == old(self).len_spec() - 1,
            forall|st: State|
                #[trigger] final(self).count_state(st) == old(self).count_state(st) - (
                if r.state == st {
                    1int
                } else {
                    0int
                }),
    {
        let ghost oldself = *old(self);
        let mut best: usize = 0;
        let mut i: usize = 1;
        while i < self.agenda.len()
            invariant
                0 < i <= self.agenda.len(),
                best < i,
                forall|j: int|
                    0 <= j < i ==> self.agenda@[best as int].time <= (
                    #[trigger] self.agenda@[j]).time,
            decreases self.agenda.len() - i,
        {
            if self.agenda[i].time < self.agenda[best].time {
                best = i;
            }
            i += 1;
        }
        let stored: u64 = self.agenda[best].time;
        let popped = self.agenda.swap_remove(best);
        let delta: u64 = stored - self.offset;
        self.offset = stored;
        proof {
            let t = oldself.entries();
            let t2 = t.update(best as int, t.last());
            assert(self.entries() =~= t2.drop_last());
            t.to_multiset_ensures();
            t2.to_multiset_ensures();
            vstd::seq_lib::to_multiset_update(t, best as int, t.last());
            assert(t2.drop_last() =~= t2.remove(t2.len() - 1));
            if best as int == t.len() - 1 {
                assert(t2 =~= t);
            }
            assert(t2[t2.len() - 1] == t.last());
            assert(self.pending() =~= t.to_multiset().remove(t[best as int]));
            // the popped entry is a member of the old view
            assert(t[best as int] == (self.now(), popped.state));
            assert(t.contains(t[best as int]));
            // and no pending entry fires earlier
            assert forall|e: (int, State)| oldself.pending().count(e) > 0 implies self.now()
                <= e.0 by {
                assert(t.contains(e));
                let j = choose|j: int| 0 <= j < t.len() && t[j] == e;
                assert(oldself.agenda@[best as int].time <= oldself.agenda@[j].time);
            }
            // state counts: the swap-remove takes out exactly the popped state
            assert forall|st: State|
                count_with_state(self.agenda@, st) == count_with_state(oldself.agenda@, st) - (
                if popped.state == st {
                    1int
                } else {
                    0int
                }) by {
                let s = oldself.agenda@;
                let u = s.update(best as int, s.last());
                lemma_count_with_state_update(s, best as int, s.last(), st);
                assert(self.agenda@ =~= u.drop_last());
                assert(u.last() == s.last());
                assert(count_with_state(u, st) == count_with_state(u.drop_last(), st) + (
                if s.last().state == st {
                    1int
                } else {
                    0int
                }));
            }
        }
        if self.offset > REBASE_LIMIT {
            self.clear_offset();
        }
        SimProcess { state: popped.state, time: delta }
    }

    /// Rebasing maintenance: subtracts the offset from every stored time and
    /// resets it.  The visible view — clock, pending times, counts — does
    /// not change: rebasing cannot reorder or retime any event.
    pub fn clear_offset(&mut self)
        requires
            old(self).times_ok(),
        ensures
            final(self).wf(),
            final(self).now() == old(self).now(),
            final(self).entries() == old(self).entries(),
            final(self).pending() == old(self).pending(),
            final(self).len_spec() == old(self).len_spec(),
            forall|st: State| #[trigger] final(self).count_state(st) == old(self).count_state(st),
    {
        let ghost oldself = *old(self);
        let offset = self.offset;
        let mut i: usize = 0;
        while i < self.agenda.len()
            invariant
                i <= self.agenda.len(),
                self.offset == oldself.offset,
                self.epoch@ == oldself.epoch@,
                offset == oldself.offset,
                self.agenda@.len() == oldself.agenda@.len(),
                oldself.times_ok(),
                forall|j: int|
                    0 <= j < i ==> (#[trigger] self.agenda@[j]).time == oldself.agenda@[j].time
                        - offset && self.agenda@[j].state == oldself.agenda@[j].state,
                forall|j: int|
                    i <= j < self.agenda@.len() ==> #[trigger] self.agenda@[j]
                        == oldself.agenda@[j],
            decreases self.agenda.len() - i,
        {
            let p = self.agenda[i];
            self.agenda.set(i, SimProcess { state: p.state, time: p.time - offset });
            i += 1;
        }
        self.offset = 0;
        proof {
            self.epoch@ = oldself.epoch@ + offset as int;
        }
        proof {
            assert(self.entries() =~= oldself.entries());
            assert forall|st: State|
                count_with_state(self.agenda@, st) == count_with_state(
                    oldself.agenda@,
                    st,
                ) by {
                lemma_count_with_state_same_states(self.agenda@, oldself.agenda@, st);
            }
        }
    }
}

/// Two sequences whose tokens agree on states, index by index, have the
/// same state counts.
proof fn lemma_count_with_state_same_states(s1: Seq<SimProcess>, s2: Seq<SimProcess>, st: State)
    requires
        s1.len() == s2.len(),
        forall|j: int| 0 <= j < s1.len() ==> (#[trigger] s1[j]).state == s2[j].state,
    ensures
        count_with_state(s1, st) == count_with_state(s2, st),
    decreases s1.len(),
{
    if s1.len() > 0 {
        lemma_count_with_state_same_states(s1.drop_last(), s2.drop_last(), st);
    }
}

} // verus!
