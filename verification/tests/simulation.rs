//! Full runs: a deterministic event trace, the Erlang-loss sanity check,
//! and the cross-series aggregation.

use anystream::model::class::{Class, StreamType};
use anystream::model::system::ModelDescription;
use anystream::simulator::simulations_statistics::{SimStatisticsMultiV, StatisticsMultiSimulations};
use anystream::simulator::single_statistics::{
    EventType, Macrostate, StatisticsFinalized, StatisticsFinalizedMetadata,
};
use anystream::simulator::Simulator;
use rand::rngs::StdRng;
use rand::SeedableRng;
use rand_distr::{Distribution, Exp};

#[test]
fn deterministic_trace_capacity_one() {
    // fixed delays: arrivals every 10, services take 25; the first arrival
    // is admitted, the next two find the unit busy, then it is released
    let mut sim = Simulator::new(1);
    let kinds: Vec<EventType> = (0..5).map(|_| sim.execute_next(10, 25)).collect();
    assert!(matches!(kinds[0], EventType::NewCall));
    assert!(matches!(kinds[1], EventType::LostCall));
    assert!(matches!(kinds[2], EventType::LostCall));
    assert!(matches!(kinds[3], EventType::EndCall));
    assert!(matches!(kinds[4], EventType::NewCall));
    assert_eq!(sim.total_lost, 2);
    // lost arrivals and completed services both count as served events
    assert_eq!(sim.total_serv, 3);
    assert_eq!(sim.steps, 5);
}

#[test]
fn erlang_loss_capacity_one_balanced_load() {
    // Poisson arrivals and services at equal rates, one server: the classic
    // loss system settles at p0 = p1 = 1/2
    let mut sim = Simulator::new(1);
    let mut rng = StdRng::seed_from_u64(20_240_101);
    let exp = Exp::new(1.0).unwrap();
    let mut draw = |rng: &mut StdRng| -> u64 {
        let x: f64 = exp.sample(rng);
        ((x * 1_000_000.0) as u64).min(1_000_000_000_000)
    };

    let warmup = sim.warmup_target();
    for _ in 0..warmup {
        let a = draw(&mut rng);
        let b = draw(&mut rng);
        sim.execute_next(a, b);
    }
    sim.simulate_with_statistics_init(5_000);
    loop {
        let a = draw(&mut rng);
        let b = draw(&mut rng);
        sim.execute_next(a, b);
        if sim.end_simulation() {
            break;
        }
    }
    let fin = sim.prepare_statistics(42, String::from("0.4.0"));
    assert_eq!(fin.v, 1);
    assert!(fin.metadata.min_no_of_events_per_state >= 5_000);
    let p0 = fin.states[0].p as f64 / 1_000_000.0;
    let p1 = fin.states[1].p as f64 / 1_000_000.0;
    assert!((p0 - 0.5).abs() < 0.05, "p0 = {}", p0);
    assert!((p1 - 0.5).abs() < 0.05, "p1 = {}", p1);
    assert!(fin.no_of_events > 0);
}

fn fin_record(
    v: usize,
    states: Vec<(u64, u64, u64)>,
    no_of_events: u64,
    uuid: u128,
) -> StatisticsFinalized {
    StatisticsFinalized {
        states: states
            .into_iter()
            .map(|(p, out_new, out_end)| Macrostate { p, out_new, out_end })
            .collect(),
        v,
        no_of_events,
        metadata: StatisticsFinalizedMetadata {
            min_no_of_events_per_state: 100,
            uuid,
            version: String::from("0.4.0"),
        },
    }
}

#[test]
fn aggregation_single_series_is_identity() {
    let one = fin_record(1, vec![(250_000, 10, 20), (750_000, 30, 40)], 1234, 9);
    let agg = StatisticsMultiSimulations::statistics_proc(&vec![one], 1);
    assert_eq!(agg.v, 1);
    assert_eq!(agg.uuids, vec![9]);
    assert_eq!(agg.states_avarage[0].p, 250_000);
    assert_eq!(agg.states_avarage[0].out_new, 10);
    assert_eq!(agg.states_avarage[0].out_end, 20);
    assert_eq!(agg.states_avarage[1].p, 750_000);
    assert_eq!(agg.no_of_events_avg, 1234);
    // a single series deviates from itself by exactly zero
    assert_eq!(agg.states_deviation[0].p, 0);
    assert_eq!(agg.states_deviation[0].out_new, 0);
    assert_eq!(agg.states_deviation[0].out_end, 0);
    assert_eq!(agg.states_deviation[1].p, 0);
    assert_eq!(agg.states_deviation[1].out_new, 0);
    assert_eq!(agg.states_deviation[1].out_end, 0);
    assert_eq!(agg.no_of_events_dev, 0);
}

#[test]
fn aggregation_exact_mean_and_deviation() {
    let a = fin_record(0, vec![(200_000, 100, 10)], 1000, 1);
    let b = fin_record(0, vec![(400_000, 300, 30)], 3000, 2);
    let agg = StatisticsMultiSimulations::statistics_proc(&vec![a, b], 0);
    assert_eq!(agg.states_avarage[0].p, 300_000);
    assert_eq!(agg.states_avarage[0].out_new, 200);
    assert_eq!(agg.states_avarage[0].out_end, 20);
    assert_eq!(agg.no_of_events_avg, 2000);
    // population deviation of {x-d, x+d} is exactly d
    assert_eq!(agg.states_deviation[0].p, 100_000);
    assert_eq!(agg.states_deviation[0].out_new, 100);
    assert_eq!(agg.states_deviation[0].out_end, 10);
    assert_eq!(agg.no_of_events_dev, 1000);
}

#[test]
fn result_containers_start_empty() {
    let class = Class::new(
        StreamType::Poisson,
        StreamType::Poisson,
        1_000_000,
        1_000_000,
        1_000_000,
        1_000_000,
    );
    let multi = SimStatisticsMultiV::new(class);
    assert_eq!(multi.results.len(), 0);
    assert_eq!(multi.tr_class, class);
    let model = ModelDescription { class, v: 3 };
    assert_eq!(model.v, 3);
    assert_eq!(model.class, class);
}

#[test]
fn aggregation_is_order_independent() {
    let a = fin_record(1, vec![(100_000, 5, 7), (900_000, 11, 13)], 500, 1);
    let b = fin_record(1, vec![(300_000, 17, 19), (700_000, 23, 29)], 900, 2);
    let c = fin_record(1, vec![(600_000, 31, 37), (400_000, 41, 43)], 1300, 3);
    let one = StatisticsMultiSimulations::statistics_proc(
        &vec![a.clone(), b.clone(), c.clone()],
        1,
    );
    let other = StatisticsMultiSimulations::statistics_proc(&vec![c, a, b], 1);
    // every statistic agrees whatever the order; only the identifier list
    // follows the input
    assert_eq!(one.states_avarage, other.states_avarage);
    assert_eq!(one.states_deviation, other.states_deviation);
    assert_eq!(one.no_of_events_avg, other.no_of_events_avg);
    assert_eq!(one.no_of_events_dev, other.no_of_events_dev);
    assert_eq!(one.v, other.v);
}
