//! The resource pool: occupancy state and, while collection is active, the
//! raw statistics it records.

use vstd::prelude::*;

use crate::simulator::single_statistics::{
    lemma_probabilities_sum_to_one, spec_stats_updated, sum_p, EventType, Macrostate,
    MacrostateRaw, StatisticsFinalized, StatisticsFinalizedMetadata, StatisticsRunExperiment,
    RATE_CAP, TIME_LIMIT,
};
use crate::SCALE;

verus! {

/// A pool of `v` identical units; `v_free` of them are idle.  While
/// `statistics` is present every admission, loss and release is recorded.
#[derive(Clone, Debug)]
pub struct Group {
    pub v: usize,
    pub v_free: usize,
    pub statistics: Option<StatisticsRunExperiment>,
}

/// The minimum, over all occupancy levels, of the outbound transition
/// count: the quantity the convergence rule watches.
pub open spec fn spec_min_occurrence(s: Seq<MacrostateRaw>) -> int
    decreases s.len(),
{
    if s.len() == 0 {
        0
    } else {
        let x = s.last().no_out_new + s.last().no_out_end;
        if s.len() == 1 {
            x
        } else {
            let rest = spec_min_occurrence(s.drop_last());
            if x < rest {
                x
            } else {
                rest
            }
        }
    }
}

impl Group {
    /// Occupied units.
    pub open spec fn occupied(self) -> int {
        self.v - self.v_free
    }

    /// Free count within capacity, and sound statistics if any: the shape
    /// every operation preserves.
    pub open spec fn wf(self) -> bool {
        &&& self.v < usize::MAX
        &&& self.v_free <= self.v
        &&& match self.statistics {
            Option::None => true,
            Option::Some(st) => {
                &&& st.states@.len() == self.v + 1
                &&& st.durations_ok()
                &&& st.total_is_sum()
                &&& st.time_total <= TIME_LIMIT
            },
        }
    }

    /// Headroom for recording one more event that lasted `time_delta`.
    pub open spec fn can_record(self, time_delta: u64) -> bool {
        match self.statistics {
            Option::None => true,
            Option::Some(st) => {
                &&& st.time_total + time_delta <= TIME_LIMIT
                &&& forall|i: int|
                    0 <= i < st.states@.len() ==> (#[trigger] st.states@[i]).no_out_new
                        < u64::MAX && st.states@[i].no_out_end < u64::MAX
            },
        }
    }

    /// How the statistics change when one event of the given kind fires at
    /// the current occupancy level: unchanged while collection is off.
    pub open spec fn stats_recorded(
        pre: Group,
        post: Group,
        event_type: EventType,
        time_delta: u64,
    ) -> bool {
        match pre.statistics {
            Option::None => post.statistics is None,
            Option::Some(st) => match post.statistics {
                Option::None => false,
                Option::Some(st2) => spec_stats_updated(
                    st,
                    st2,
                    event_type,
                    pre.occupied(),
                    time_delta as int,
                ),
            },
        }
    }

    /// An idle pool of `capacity` units, not yet collecting statistics.
    pub fn new(capacity: usize) -> (r: Group)
        requires
            capacity < usize::MAX,
        ensures
            r.v == capacity,
            r.v_free == capacity,
            r.statistics is None,
            r.wf(),
    {
        Group { v: capacity, v_free: capacity, statistics: Option::None }
    }

    /// An arrival: admits the call when a unit is free and reports whether
    /// it did; a full pool loses the call.  Either way the transition is
    /// recorded with the time spent at the pre-transition level.
    pub fn call_add(&mut self, time_delta: u64) -> (result: bool)
        requires
            old(self).wf(),
            old(self).can_record(time_delta),
        ensures
            final(self).wf(),
            result <==> old(self).v_free > 0,
            final(self).v == old(self).v,
            final(self).v_free == if result {
                (old(self).v_free - 1) as usize
            } else {
                old(self).v_free
            },
            Group::stats_recorded(
                *old(self),
                *final(self),
                if result {
                    EventType::NewCall
                } else {
                    EventType::LostCall
                },
                time_delta,
            ),
    {
        let result: bool;
        let old_state: usize = self.v - self.v_free;
        let event_type: EventType;

        if self.v_free > 0 {
            event_type = EventType::NewCall;
            self.v_free = self.v_free - 1;
            result = true;
        } else {
            event_type = EventType::LostCall;
            result = false;
        }
        if let Option::Some(stat) = &mut self.statistics {
            stat.update(event_type, old_state, old_state + 1, time_delta);
        }
        result
    }

    /// A departure: returns one unit to the pool.  At least one unit must
    /// be occupied; a release from an idle pool is a logic error.
    pub fn call_end(&mut self, time_delta: u64)
        requires
            old(self).wf(),
            old(self).can_record(time_delta),
            old(self).v_free < old(self).v,
        ensures
            final(self).wf(),
            final(self).v == old(self).v,
            final(self).v_free == old(self).v_free + 1,
            Group::stats_recorded(*old(self), *final(self), EventType::EndCall, time_delta),
    {
        let event_type = EventType::EndCall;
        let old_state: usize = self.v - self.v_free;
        self.v_free = self.v_free + 1;
        let new_state: usize = self.v - self.v_free;

        if let Option::Some(stat) = &mut self.statistics {
            stat.update(event_type, old_state, new_state, time_delta);
        }
    }

    /// Starts (or restarts) statistics collection with zeroed accumulators:
    /// everything seen before, the warm-up, is discarded.
    pub fn statistics_init(&mut self)
        requires
            old(self).wf(),
            old(self).v < usize::MAX,
        ensures
            final(self).wf(),
            final(self).v == old(self).v,
            final(self).v_free == old(self).v_free,
            match final(self).statistics {
                Option::None => false,
                Option::Some(st) => st.states@.len() == old(self).v + 1 && st.is_cleared(),
            },
    {
        match &mut self.statistics {
            Option::None => {
                self.statistics = Option::Some(StatisticsRunExperiment::new(self.v));
            },
            Option::Some(stat) => {
                stat.clear();
            },
        }
    }

    /// Normalizes the accumulated statistics into the immutable per-run
    /// record, stamped with the given identity and version.
    pub fn statistics_preview(
        &self,
        no_of_events: u64,
        min_no_of_events_per_state: u64,
        uuid: u128,
        version: String,
    ) -> (r: StatisticsFinalized)
        requires
            self.wf(),
            self.statistics is Some,
            no_of_events <= RATE_CAP,
        ensures
            r.wf(),
            r.v == self.v,
            r.no_of_events == no_of_events,
            r.metadata.min_no_of_events_per_state == min_no_of_events_per_state,
            r.metadata.uuid == uuid,
            r.metadata.version == version,
            ({
                let st = self.statistics->0;
                &&& r.states@.len() == st.states@.len()
                &&& forall|i: int|
                    0 <= i < st.states@.len() ==> {
                        let m = #[trigger] st.states@[i];
                        &&& r.states@[i].p as int == crate::simulator::single_statistics::spec_p(
                            m.duration as int,
                            st.time_total as int,
                        )
                        &&& r.states@[i].out_new as int
                            == crate::simulator::single_statistics::spec_rate(
                            m.no_out_new as int,
                            m.duration as int,
                        )
                        &&& r.states@[i].out_end as int
                            == crate::simulator::single_statistics::spec_rate(
                            m.no_out_end as int,
                            m.duration as int,
                        )
                    }
                // the occupancy probabilities partition the observed time:
                // once any time was seen they sum to one, up to the floor
                // rounding of each level
                &&& st.time_total >= 1 ==> (SCALE as int) - r.states@.len() < sum_p(r.states@)
                    <= SCALE as int
            }),
    {
        let stat = match &self.statistics {
            Option::Some(stat) => stat,
            Option::None => unreached(),
        };
        let total_time = stat.time_total;
        let n = stat.states.len();
        let mut states: Vec<Macrostate> = Vec::new();
        let mut i: usize = 0;
        while i < n
            invariant
                i <= n,
                n == stat.states@.len(),
                self.wf(),
                self.statistics == Option::Some(*stat),
                total_time == stat.time_total,
                states@.len() == i,
                forall|j: int| 0 <= j < i ==> (#[trigger] states@[j]).wf(),
                forall|j: int|
                    0 <= j < i ==> {
                        let m = #[trigger] stat.states@[j];
                        &&& states@[j].p as int == crate::simulator::single_statistics::spec_p(
                            m.duration as int,
                            stat.time_total as int,
                        )
                        &&& states@[j].out_new as int
                            == crate::simulator::single_statistics::spec_rate(
                            m.no_out_new as int,
                            m.duration as int,
                        )
                        &&& states@[j].out_end as int
                            == crate::simulator::single_statistics::spec_rate(
                            m.no_out_end as int,
                            m.duration as int,
                        )
                    },
            decreases n - i,
        {
            let m = stat.states[i];
            states.push(m.get_macrostate_statistics(total_time));
            i += 1;
        }
        proof {
            if stat.time_total >= 1 {
                lemma_probabilities_sum_to_one(stat.states@, states@, stat.time_total as int);
            }
        }
        StatisticsFinalized {
            states,
            v: self.v,
            no_of_events,
            metadata: StatisticsFinalizedMetadata { min_no_of_events_per_state, uuid, version },
        }
    }

    /// The smallest outbound transition count over all occupancy levels;
    /// zero while no statistics are being collected.
    pub fn min_state_occurance(&self) -> (r: u64)
        requires
            self.wf(),
            ({
                match self.statistics {
                    Option::None => true,
                    Option::Some(st) => forall|i: int|
                        0 <= i < st.states@.len() ==> (#[trigger] st.states@[i]).no_out_new
                            + st.states@[i].no_out_end <= u64::MAX,
                }
            }),
        ensures
            match self.statistics {
                Option::None => r == 0,
                Option::Some(st) => r as int == spec_min_occurrence(st.states@),
            },
    {
        let stat = match &self.statistics {
            Option::Some(stat) => stat,
            Option::None => {
                return 0;
            },
        };
        let n = stat.states.len();
        if n == 0 {
            return 0;
        }
        let first = stat.states[0];
        let mut cur: u64 = first.no_out_new + first.no_out_end;
        let mut i: usize = 1;
        proof {
            assert(stat.states@.take(1).drop_last() =~= Seq::<MacrostateRaw>::empty());
            assert(stat.states@.take(1).last() == stat.states@[0]);
        }
        while i < n
            invariant
                1 <= i <= n,
                n == stat.states@.len(),
                forall|k: int|
                    0 <= k < n ==> (#[trigger] stat.states@[k]).no_out_new
                        + stat.states@[k].no_out_end <= u64::MAX,
                cur as int == spec_min_occurrence(stat.states@.take(i as int)),
            decreases n - i,
        {
            let m = stat.states[i];
            let x: u64 = m.no_out_new + m.no_out_end;
            proof {
                assert(stat.states@.take(i as int + 1).drop_last() =~= stat.states@.take(i as int));
                assert(stat.states@.take(i as int + 1).last() == stat.states@[i as int]);
            }
            if x < cur {
                cur = x;
            }
            i += 1;
        }
        proof {
            assert(stat.states@.take(n as int) =~= stat.states@);
        }
        cur
    }
}

} // verus!
