//! The event agenda and the resource pool: ordering, rebasing, occupancy
//! bounds and exact statistics recording.

use anystream::simulator::process::{SimProcess, State};
use anystream::simulator::scheduler::Scheduler;
use anystream::simulator::system::Group;

fn arrival(time: u64) -> SimProcess {
    SimProcess { state: State::WaitForNew, time }
}

fn service(time: u64) -> SimProcess {
    SimProcess { state: State::WaitForService, time }
}

#[test]
fn scheduler_pops_in_time_order() {
    let mut s = Scheduler::new();
    s.add_process(arrival(5));
    s.add_process(service(3));
    s.add_process(arrival(7));
    assert_eq!(s.len(), 3);

    // deltas between consecutive pops: 3, then 5-3, then 7-5
    let e1 = s.get_process();
    assert_eq!(e1.time, 3);
    assert!(matches!(e1.state, State::WaitForService));
    let e2 = s.get_process();
    assert_eq!(e2.time, 2);
    assert!(matches!(e2.state, State::WaitForNew));
    let e3 = s.get_process();
    assert_eq!(e3.time, 2);
    assert!(matches!(e3.state, State::WaitForNew));
    assert_eq!(s.len(), 0);
}

#[test]
fn scheduler_ties_all_come_out() {
    let mut s = Scheduler::new();
    s.add_process(arrival(4));
    s.add_process(service(4));
    let e1 = s.get_process();
    let e2 = s.get_process();
    assert_eq!(e1.time, 4);
    assert_eq!(e2.time, 0);
    // tie order is unspecified; both tokens must still appear
    let mut saw_new = 0;
    let mut saw_serv = 0;
    for e in [e1, e2] {
        match e.state {
            State::WaitForNew => saw_new += 1,
            State::WaitForService => saw_serv += 1,
        }
    }
    assert_eq!((saw_new, saw_serv), (1, 1));
}

#[test]
fn scheduler_rebasing_preserves_deltas() {
    // push the internal offset far past the rebase bound; every delta must
    // come out exactly as scheduled
    let mut s = Scheduler::new();
    let big: u64 = 600_000_000_000;
    for _ in 0..6 {
        s.add_process(arrival(big));
        let e = s.get_process();
        assert_eq!(e.time, big);
    }
    // and ordering afterwards is still intact
    s.add_process(arrival(200));
    s.add_process(service(100));
    assert_eq!(s.get_process().time, 100);
    assert_eq!(s.get_process().time, 100);
}

#[test]
fn scheduler_explicit_rebase_is_invisible() {
    let mut s = Scheduler::new();
    s.add_process(arrival(10));
    s.add_process(service(20));
    s.clear_offset();
    assert_eq!(s.len(), 2);
    assert_eq!(s.get_process().time, 10);
    s.clear_offset();
    assert_eq!(s.get_process().time, 10);
}

#[test]
fn group_admits_exactly_while_free() {
    let mut g = Group::new(1);
    assert!(g.call_add(1));
    // pool full: the next arrival is lost
    assert!(!g.call_add(1));
    g.call_end(1);
    assert!(g.call_add(1));
}

#[test]
fn group_free_count_stays_in_bounds() {
    let mut g = Group::new(2);
    assert_eq!(g.v_free, 2);
    assert!(g.call_add(1));
    assert!(g.call_add(1));
    assert_eq!(g.v_free, 0);
    assert!(!g.call_add(1));
    assert_eq!(g.v_free, 0);
    g.call_end(1);
    g.call_end(1);
    assert_eq!(g.v_free, 2);
    assert_eq!(g.v, 2);
}

#[test]
fn group_records_exact_statistics() {
    let mut g = Group::new(2);
    g.statistics_init();
    assert!(g.call_add(1_000_000)); // one unit of time at level 0
    assert!(g.call_add(2_000_000)); // two units at level 1
    g.call_end(1_000_000); // one unit at level 2
    let fin = g.statistics_preview(3, 1, 7, String::from("0.4.0"));
    assert_eq!(fin.v, 2);
    assert_eq!(fin.no_of_events, 3);
    assert_eq!(fin.metadata.min_no_of_events_per_state, 1);
    assert_eq!(fin.metadata.uuid, 7);
    assert_eq!(fin.metadata.version, "0.4.0");
    assert_eq!(fin.states.len(), 3);
    // probabilities: 1/4, 2/4, 1/4 of the total time, in millionths
    assert_eq!(fin.states[0].p, 250_000);
    assert_eq!(fin.states[1].p, 500_000);
    assert_eq!(fin.states[2].p, 250_000);
    // outbound rates: events per time unit at the level, in millionths
    assert_eq!(fin.states[0].out_new, 1_000_000);
    assert_eq!(fin.states[0].out_end, 0);
    assert_eq!(fin.states[1].out_new, 500_000);
    assert_eq!(fin.states[2].out_end, 1_000_000);
}

#[test]
fn group_min_state_occurance_is_least_count() {
    let mut g = Group::new(2);
    assert_eq!(g.min_state_occurance(), 0);
    g.statistics_init();
    assert_eq!(g.min_state_occurance(), 0);
    assert!(g.call_add(1));
    assert!(g.call_add(1));
    g.call_end(1);
    // levels saw 1, 1 and 1 outbound transitions
    assert_eq!(g.min_state_occurance(), 1);
    g.call_end(1);
    assert!(g.call_add(1));
    // level 0 now saw 2, level 1 saw 2, level 2 saw 1
    assert_eq!(g.min_state_occurance(), 1);
}

#[test]
fn statistics_init_discards_warmup() {
    let mut g = Group::new(1);
    g.statistics_init();
    assert!(g.call_add(5));
    g.call_end(5);
    g.statistics_init();
    let fin = g.statistics_preview(0, 0, 0, String::from("0.4.0"));
    assert_eq!(fin.states[0].p, 0);
    assert_eq!(fin.states[0].out_new, 0);
    assert_eq!(fin.states[1].out_end, 0);
}
