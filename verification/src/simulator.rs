//! The discrete-event engine: agenda, process tokens, the resource pool and
//! the statistics pipeline.
//!
//! The run controller below owns the agenda and the pool and advances one
//! event per call; the random delays it needs are handed in as plain
//! micro-unit arguments, so the caller decides where they come from.

use vstd::prelude::*;

pub mod process;
pub mod scheduler;
pub mod simulations_statistics;
pub mod single_statistics;
pub mod system;

use crate::simulator::process::{SimProcess, State, INITIAL_DELAY};
use vstd::multiset::Multiset;
use crate::simulator::scheduler::{Scheduler, MAX_DELAY};
use crate::simulator::single_statistics::{EventType, StatisticsFinalized, RATE_CAP};
use crate::simulator::system::{spec_min_occurrence, Group};

verus! {

/// The convergence rule runs every this many events.
pub const CHECK_INTERVAL: u32 = 100;

/// Safety stop: a run that accumulated this many lost calls without
/// converging is cut off and reported as it stands.
pub const SAFETY_LOST_LIMIT: u64 = 100_000;

/// Warm-up length per unit of capacity, in events.
pub const WARMUP_PER_UNIT: u64 = 10_000;

/// Hard ceiling on events per run, far beyond any real experiment: it keeps
/// every accumulator provably within its integer type.
pub const MAX_STEPS: u64 = 1_099_511_627_776;

/// One simulation instance: the pool, its agenda, and the run counters.
pub struct Simulator {
    pub group: Group,
    pub scheduler: Scheduler,
    pub no_of_lost_calls: u64,
    pub total_lost: u64,
    pub total_serv: u64,
    pub min_occurrance: u64,
    pub analyze_states: bool,
    pub check_cntr: u32,
    pub steps: u64,
}

impl Simulator {
    /// The agenda always holds exactly one arrival token, and one service
    /// token per occupied unit: the pool and the agenda agree.
    pub open spec fn wf_counts(self) -> bool {
        &&& self.scheduler.count_state(State::WaitForNew) == 1
        &&& self.scheduler.count_state(State::WaitForService) == self.group.occupied()
    }

    /// Statistics accumulators stay within what `steps` events of at most
    /// the largest delay each can produce.
    pub open spec fn stats_bounded(self) -> bool {
        match self.group.statistics {
            Option::None => true,
            Option::Some(st) => {
                &&& st.time_total <= (self.steps as int) * 1_000_000_000_000_000
                &&& forall|i: int|
                    0 <= i < st.states@.len() ==> (#[trigger] st.states@[i]).no_out_new
                        <= self.steps && st.states@[i].no_out_end <= self.steps
            },
        }
    }

    /// The full invariant: pool, agenda and counters consistent.
    pub open spec fn wf(self) -> bool {
        &&& self.group.wf()
        &&& self.scheduler.wf()
        &&& self.wf_counts()
        &&& self.stats_bounded()
        &&& self.steps <= MAX_STEPS
        &&& self.total_lost <= self.steps
        &&& self.total_serv <= self.steps
        &&& self.no_of_lost_calls <= self.steps
    }

    /// What a token about to fire expects of the engine: the agenda has
    /// already released it, everything else is consistent, and there is
    /// room for one more event.
    pub open spec fn mid_step_ok(self, p: SimProcess) -> bool {
        &&& self.group.wf()
        &&& self.scheduler.wf()
        &&& p.time <= MAX_DELAY
        &&& self.scheduler.count_state(State::WaitForNew) == if p.state is WaitForNew {
            0int
        } else {
            1int
        }
        &&& (p.state is WaitForService ==> self.group.occupied() >= 1)
        &&& self.scheduler.count_state(State::WaitForService) == self.group.occupied() - (
        if p.state is WaitForService {
            1int
        } else {
            0int
        })
        &&& self.stats_bounded()
        &&& self.steps < MAX_STEPS
        &&& self.total_lost <= self.steps
        &&& self.total_serv <= self.steps
        &&& self.no_of_lost_calls <= self.steps
    }

    /// A fresh instance for a pool of `v` units, with the first arrival
    /// token already on the agenda and statistics collection off.
    pub fn new(v: usize) -> (r: Simulator)
        requires
            v < usize::MAX,
        ensures
            r.wf(),
            r.group.v == v,
            r.group.v_free == v,
            r.group.statistics is None,
            r.steps == 0,
            r.total_lost == 0,
            r.total_serv == 0,
            r.no_of_lost_calls == 0,
            r.analyze_states == false,
            r.scheduler.len_spec() == 1,
            r.scheduler.now() == 0,
            r.scheduler.pending() == Multiset::<(int, State)>::empty().insert(
                (INITIAL_DELAY as int, State::WaitForNew),
            ),
    {
        let mut scheduler = Scheduler::new();
        let first_process = SimProcess::new();
        scheduler.add_process(first_process);
        Simulator {
            group: Group::new(v),
            scheduler,
            no_of_lost_calls: 0,
            total_lost: 0,
            total_serv: 0,
            min_occurrance: 0,
            analyze_states: false,
            check_cntr: CHECK_INTERVAL,
            steps: 0,
        }
    }

    /// The state a popped token of kind `r` fired from.
    pub open spec fn spec_popped_state(r: EventType) -> State {
        if r is EndCall {
            State::WaitForService
        } else {
            State::WaitForNew
        }
    }

    /// Advances the simulation by exactly one event: pops the earliest
    /// pending token and fires it with the two freshly sampled delays.
    /// The clock never runs backwards, and the popped token is one no
    /// pending token precedes.
    pub fn execute_next(&mut self, new_call_delay: u64, end_call_delay: u64) -> (r: EventType)
        requires
            old(self).wf(),
            old(self).steps < MAX_STEPS,
            new_call_delay <= MAX_DELAY,
            end_call_delay <= MAX_DELAY,
        ensures
            final(self).wf(),
            final(self).steps == old(self).steps + 1,
            final(self).group.v == old(self).group.v,
            final(self).min_occurrance == old(self).min_occurrance,
            final(self).analyze_states == old(self).analyze_states,
            final(self).check_cntr == old(self).check_cntr,
            ({
                let now0 = old(self).scheduler.now();
                let now1 = final(self).scheduler.now();
                let pending0 = old(self).scheduler.pending();
                &&& now0 <= now1
                &&& now1 - now0 <= MAX_DELAY
                &&& pending0.contains((now1, Simulator::spec_popped_state(r)))
                &&& forall|e: (int, State)| pending0.count(e) > 0 ==> now1 <= e.0
                &&& Group::stats_recorded(
                    old(self).group,
                    final(self).group,
                    r,
                    (now1 - now0) as u64,
                )
                &&& match r {
                    EventType::NewCall => {
                        &&& old(self).group.v_free > 0
                        &&& final(self).group.v_free == old(self).group.v_free - 1
                        &&& final(self).total_serv == old(self).total_serv
                        &&& final(self).total_lost == old(self).total_lost
                        &&& final(self).no_of_lost_calls == old(self).no_of_lost_calls
                        &&& final(self).scheduler.pending() == pending0.remove(
                            (now1, State::WaitForNew),
                        ).insert((now1 + new_call_delay, State::WaitForNew)).insert(
                            (now1 + end_call_delay, State::WaitForService),
                        )
                    },
                    EventType::LostCall => {
                        &&& old(self).group.v_free == 0
                        &&& final(self).group.v_free == 0
                        &&& final(self).total_serv == old(self).total_serv + 1
                        &&& final(self).total_lost == old(self).total_lost + 1
                        &&& final(self).no_of_lost_calls == old(self).no_of_lost_calls + 1
                        &&& final(self).scheduler.pending() == pending0.remove(
                            (now1, State::WaitForNew),
                        ).insert((now1 + new_call_delay, State::WaitForNew))
                    },
                    EventType::EndCall => {
                        &&& final(self).group.v_free == old(self).group.v_free + 1
                        &&& final(self).total_serv == old(self).total_serv + 1
                        &&& final(self).total_lost == old(self).total_lost
                        &&& final(self).no_of_lost_calls == old(self).no_of_lost_calls
                        &&& final(self).scheduler.pending() == pending0.remove(
                            (now1, State::WaitForService),
                        )
                    },
                }
            }),
    {
        proof {
            self.scheduler.lemma_count_state_bounds(State::WaitForNew);
        }
        let evnt = self.scheduler.get_process();
        proof {
            self.scheduler.lemma_count_state_bounds(State::WaitForService);
            self.scheduler.lemma_count_state_bounds(State::WaitForNew);
        }
        evnt.execute(self, new_call_delay, end_call_delay)
    }

    /// Starts statistics collection: zeroes the accumulators, arms the
    /// convergence rule with the given threshold, and resets the safety
    /// counter.  The warm-up phase ends here.
    pub fn simulate_with_statistics_init(&mut self, min_state_cntr: u64)
        requires
            old(self).wf(),
        ensures
            final(self).wf(),
            final(self).group.v == old(self).group.v,
            final(self).group.v_free == old(self).group.v_free,
            final(self).group.statistics is Some,
            match final(self).group.statistics {
                Option::None => false,
                Option::Some(st) => st.states@.len() == old(self).group.v + 1 && st.is_cleared(),
            },
            final(self).min_occurrance == min_state_cntr,
            final(self).analyze_states,
            final(self).check_cntr == CHECK_INTERVAL,
            final(self).no_of_lost_calls == 0,
            final(self).steps == old(self).steps,
            final(self).total_lost == old(self).total_lost,
            final(self).total_serv == old(self).total_serv,
            final(self).scheduler == old(self).scheduler,
    {
        self.group.statistics_init();
        self.min_occurrance = min_state_cntr;
        self.analyze_states = true;
        self.check_cntr = CHECK_INTERVAL;
        self.no_of_lost_calls = 0;
    }

    /// The convergence decision, run once per event.  Every
    /// `CHECK_INTERVAL` events it recomputes the least-observed occupancy
    /// level and stops once that minimum reaches the requested threshold;
    /// independently, the safety stop ends a run that lost more than
    /// `SAFETY_LOST_LIMIT` calls, which the caller can tell apart by the
    /// achieved minimum in the finalized metadata.
    pub fn end_simulation(&mut self) -> (r: bool)
        requires
            old(self).wf(),
        ensures
            final(self).wf(),
            final(self).group == old(self).group,
            final(self).scheduler == old(self).scheduler,
            final(self).no_of_lost_calls == old(self).no_of_lost_calls,
            final(self).total_lost == old(self).total_lost,
            final(self).total_serv == old(self).total_serv,
            final(self).min_occurrance == old(self).min_occurrance,
            final(self).analyze_states == old(self).analyze_states,
            final(self).steps == old(self).steps,
            final(self).check_cntr == (if old(self).analyze_states && old(self).check_cntr <= 1 {
                CHECK_INTERVAL
            } else if old(self).analyze_states {
                (old(self).check_cntr - 1) as u32
            } else {
                old(self).check_cntr
            }),
            r == ({
                let min_ocur = match old(self).group.statistics {
                    Option::None => 0int,
                    Option::Some(st) => spec_min_occurrence(st.states@),
                };
                if old(self).analyze_states {
                    (old(self).check_cntr <= 1 && min_ocur >= old(self).min_occurrance)
                        || old(self).no_of_lost_calls > SAFETY_LOST_LIMIT
                } else {
                    old(self).no_of_lost_calls > SAFETY_LOST_LIMIT
                }
            }),
    {
        let mut result = false;
        if self.analyze_states {
            if self.check_cntr <= 1 {
                self.check_cntr = CHECK_INTERVAL;
                let min_ocur = self.group.min_state_occurance();
                result = min_ocur >= self.min_occurrance;
            } else {
                self.check_cntr = self.check_cntr - 1;
            }
            if self.no_of_lost_calls > SAFETY_LOST_LIMIT {
                result = true;
            }
        } else {
            result = self.no_of_lost_calls > SAFETY_LOST_LIMIT;
        }
        result
    }

    /// Finalizes the run: normalizes the raw statistics by the total
    /// observed time and stamps the record with the total event count, the
    /// achieved per-level minimum, and the given identity and version.
    ///
    /// The event total adds the two run counters, so a lost arrival counts
    /// twice (as lost and as served) while an admitted arrival is counted
    /// only at its departure; stored results share this accounting, and the
    /// `steps` field carries the plain number of processed events.
    pub fn prepare_statistics(&self, uuid: u128, version: String) -> (r: StatisticsFinalized)
        requires
            self.wf(),
            self.group.statistics is Some,
        ensures
            r.wf(),
            r.v == self.group.v,
            r.no_of_events == self.total_lost + self.total_serv,
            r.metadata.uuid == uuid,
            r.metadata.version == version,
            r.metadata.min_no_of_events_per_state as int == ({
                match self.group.statistics {
                    Option::None => 0int,
                    Option::Some(st) => spec_min_occurrence(st.states@),
                }
            }),
            ({
                let st = self.group.statistics->0;
                &&& r.states@.len() == st.states@.len()
                &&& forall|i: int|
                    0 <= i < st.states@.len() ==> {
                        let m = #[trigger] st.states@[i];
                        &&& r.states@[i].p as int == crate::simulator::single_statistics::spec_p(
                            m.duration as int,
                            st.time_total as int,
                        )
                        &&& r.states@[i].out_new as int
                            == crate::simulator::single_statistics::spec_rate(
                            m.no_out_new as int,
                            m.duration as int,
                        )
                        &&& r.states@[i].out_end as int
                            == crate::simulator::single_statistics::spec_rate(
                            m.no_out_end as int,
                            m.duration as int,
                        )
                    }
            }),
    {
        proof {
            assert(RATE_CAP == 9_007_199_254_740_992u64);
        }
        let no_of_events: u64 = self.total_lost + self.total_serv;
        let min_occ: u64 = self.group.min_state_occurance();
        self.group.statistics_preview(no_of_events, min_occ, uuid, version)
    }

    /// The number of warm-up events for this instance's capacity.
    pub fn warmup_target(&self) -> (r: u64)
        requires
            self.group.v <= 1_000_000_000_000,
        ensures
            r == WARMUP_PER_UNIT * self.group.v,
    {
        WARMUP_PER_UNIT * (self.group.v as u64)
    }
}

} // verus!
