//! The process token: one pending event of the renewal arrival stream or of
//! a running service.

use vstd::prelude::*;

use crate::simulator::single_statistics::EventType;
use crate::simulator::system::Group;
use crate::simulator::Simulator;

verus! {

/// What a token is waiting for.
#[derive(Clone, Copy, PartialEq, Eq, Structural, Debug)]
pub enum State {
    /// The perpetual arrival token: fires at the next admission attempt.
    WaitForNew,
    /// An admitted call: fires when its service ends.
    WaitForService,
}

/// Delay of the very first arrival after the clock starts, in micro-units
/// of time (a tenth of a time unit).
pub const INITIAL_DELAY: u64 = 100_000;

/// One pending event.  Outside the agenda `time` is a delay relative to the
/// current clock; the agenda rebases it internally.
#[derive(Clone, Copy, PartialEq, Eq, Structural, Debug)]
pub struct SimProcess {
    pub state: State,
    pub time: u64,
}

impl SimProcess {
    /// The arrival token a fresh simulation starts from.
    pub fn new() -> (r: SimProcess)
        ensures
            r.state == State::WaitForNew,
            r.time == INITIAL_DELAY,
    {
        SimProcess { state: State::WaitForNew, time: INITIAL_DELAY }
    }

    /// Fires this token, just popped from the agenda with `time` holding
    /// the delay since the previous event.
    ///
    /// An arrival token tries to admit a call; on success a service token
    /// is scheduled `end_call_delay` ahead, and either way the arrival
    /// token is rescheduled `new_call_delay` ahead — the renewal stream
    /// never stops.  A service token releases its unit and is discarded.
    /// The returned kind names the transition that was recorded.
    pub fn execute(self, system: &mut Simulator, new_call_delay: u64, end_call_delay: u64) -> (r:
        EventType)
        requires
            old(system).mid_step_ok(self),
            new_call_delay <= crate::simulator::scheduler::MAX_DELAY,
            end_call_delay <= crate::simulator::scheduler::MAX_DELAY,
        ensures
            final(system).wf_counts(),
            final(system).group.wf(),
            final(system).scheduler.wf(),
            final(system).stats_bounded(),
            final(system).steps == old(system).steps + 1,
            final(system).group.v == old(system).group.v,
            final(system).min_occurrance == old(system).min_occurrance,
            final(system).analyze_states == old(system).analyze_states,
            final(system).check_cntr == old(system).check_cntr,
            final(system).scheduler.now() == old(system).scheduler.now(),
            final(system).total_lost <= final(system).steps,
            final(system).total_serv <= final(system).steps,
            final(system).no_of_lost_calls <= final(system).steps,
            r == self.spec_event_kind(old(system).group),
            Group::stats_recorded(old(system).group, final(system).group, r, self.time),
            match r {
                EventType::NewCall => {
                    &&& old(system).group.v_free > 0
                    &&& final(system).group.v_free == old(system).group.v_free - 1
                    &&& final(system).total_serv == old(system).total_serv
                    &&& final(system).total_lost == old(system).total_lost
                    &&& final(system).no_of_lost_calls == old(system).no_of_lost_calls
                    &&& final(system).scheduler.pending() == old(system).scheduler.pending().insert(
                        (old(system).scheduler.now() + new_call_delay, State::WaitForNew),
                    ).insert((old(system).scheduler.now() + end_call_delay, State::WaitForService))
                },
                EventType::LostCall => {
                    &&& old(system).group.v_free == 0
                    &&& final(system).group.v_free == 0
                    &&& final(system).total_serv == old(system).total_serv + 1
                    &&& final(system).total_lost == old(system).total_lost + 1
                    &&& final(system).no_of_lost_calls == old(system).no_of_lost_calls + 1
                    &&& final(system).scheduler.pending() == old(system).scheduler.pending().insert(
                        (old(system).scheduler.now() + new_call_delay, State::WaitForNew),
                    )
                },
                EventType::EndCall => {
                    &&& final(system).group.v_free == old(system).group.v_free + 1
                    &&& final(system).total_serv == old(system).total_serv + 1
                    &&& final(system).total_lost == old(system).total_lost
                    &&& final(system).no_of_lost_calls == old(system).no_of_lost_calls
                    &&& final(system).scheduler.pending() == old(system).scheduler.pending()
                },
            },
    {
        let last_time = self.time;
        let result: EventType;
        match self.state {
            State::WaitForNew => {
                if system.group.call_add(last_time) {
                    result = EventType::NewCall;
                    system.scheduler.add_process(
                        SimProcess { state: State::WaitForService, time: end_call_delay },
                    );
                } else {
                    result = EventType::LostCall;
                    system.total_lost = system.total_lost + 1;
                    system.total_serv = system.total_serv + 1;
                    system.no_of_lost_calls = system.no_of_lost_calls + 1;
                }
                system.scheduler.add_process(
                    SimProcess { state: State::WaitForNew, time: new_call_delay },
                );
            },
            State::WaitForService => {
                result = EventType::EndCall;
                system.group.call_end(last_time);
                system.total_serv = system.total_serv + 1;
            },
        }
        system.steps = system.steps + 1;
        result
    }

    /// The transition this token causes against the given pool state.
    pub open spec fn spec_event_kind(self, group: Group) -> EventType {
        match self.state {
            State::WaitForNew => if group.v_free > 0 {
                EventType::NewCall
            } else {
                EventType::LostCall
            },
            State::WaitForService => EventType::EndCall,
        }
    }
}

} // verus!
