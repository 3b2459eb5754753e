//! Distribution fitting: the statistical round-trip of every family, and
//! the rejection rules for infeasible shape parameters.

use anystream::model::class::{Class, StreamOfEvents, StreamType};
use anystream::model::sim_class::SimClass;
use anystream::model::utils;
use rand::rngs::StdRng;
use rand::Rng;
use rand::SeedableRng;
use rand_distr::Distribution;

const SCALE_F: f64 = 1_000_000.0;
const SCALE: u64 = 1_000_000;

fn mean(data: &[f64]) -> Option<f64> {
    let sum = data.iter().sum::<f64>();
    let count = data.len();
    match count {
        positive if positive > 0 => Some(sum / count as f64),
        _ => None,
    }
}

fn std_deviation(data: &[f64]) -> Option<f64> {
    match (mean(data), data.len()) {
        (Some(data_mean), count) if count > 0 => {
            let variance = data
                .iter()
                .map(|value| {
                    let diff = data_mean - *value;
                    diff * diff
                })
                .sum::<f64>()
                / count as f64;
            Some(variance.sqrt())
        }
        _ => None,
    }
}

fn sample_stream<R: Rng>(stream: StreamOfEvents, rng: &mut R) -> f64 {
    match stream {
        StreamOfEvents::Poisson { lambda } => {
            rand_distr::Exp::new(lambda as f64 / SCALE_F).unwrap().sample(rng)
        }
        StreamOfEvents::Uniform { t_min, t_max } => {
            rand_distr::Uniform::new(t_min as f64 / SCALE_F, t_max as f64 / SCALE_F).sample(rng)
        }
        StreamOfEvents::Gamma { shape, scale } => {
            rand_distr::Gamma::new(shape as f64 / SCALE_F, scale as f64 / SCALE_F)
                .unwrap()
                .sample(rng)
        }
        StreamOfEvents::Pareto { scale, shape } => {
            rand_distr::Pareto::new(scale as f64 / SCALE_F, shape as f64 / SCALE_F)
                .unwrap()
                .sample(rng)
        }
    }
}

fn test_tr_class(arrival_type: StreamType, arrival_intensity: f64, arrival_e2d2: f64) {
    test_tr_class_n(arrival_type, arrival_intensity, arrival_e2d2, 1_000_000);
}

fn test_tr_class_n(
    arrival_type: StreamType,
    arrival_intensity: f64,
    arrival_e2d2: f64,
    len: usize,
) {
    let serv_intensity = 1.0;
    let tr_class = SimClass::new(
        arrival_type,
        StreamType::Poisson,
        (arrival_intensity * SCALE_F).round() as u64,
        (arrival_e2d2 * SCALE_F).round() as u64,
        (serv_intensity * SCALE_F).round() as u64,
        SCALE,
    )
    .unwrap();
    let mut rng: StdRng = StdRng::seed_from_u64(12345);

    let arrival = tr_class.get_arrival_stream();
    let samples: Vec<f64> = (0..len).map(|_| sample_stream(arrival, &mut rng)).collect();

    let a = tr_class.get_a() as f64 / SCALE_F;
    let exp_mean_time = serv_intensity / a;
    let exp_std_dev_time =
        (exp_mean_time * exp_mean_time / (tr_class.get_new_e2d2() as f64 / SCALE_F)).sqrt();

    let cur_mean_time = mean(&samples).unwrap();
    assert!(
        (cur_mean_time - exp_mean_time).abs() <= 0.01 * exp_mean_time.abs(),
        "mean {} vs expected {}",
        cur_mean_time,
        exp_mean_time
    );

    let cur_std_dev_time = std_deviation(&samples).unwrap();
    assert!(
        (cur_std_dev_time - exp_std_dev_time).abs() <= 0.1 * exp_std_dev_time.abs(),
        "std dev {} vs expected {}",
        cur_std_dev_time,
        exp_std_dev_time
    );
}

#[test]
fn test_poison_intensity1() {
    test_tr_class(StreamType::Poisson, 1.0, 1.0);
}

#[test]
#[should_panic]
fn test_poison_intensity1_wronge_2d2() {
    test_tr_class(StreamType::Poisson, 1.0, 3.0);
}

#[test]
fn test_poison_intensity10() {
    test_tr_class(StreamType::Poisson, 10.0, 1.0);
}

#[test]
fn test_gamma_intensity1() {
    test_tr_class(StreamType::Gamma, 1.0, 1.0);
}

#[test]
fn test_gamma_intensity1_e2d2_3() {
    test_tr_class(StreamType::Gamma, 1.0, 3.0);
}

#[test]
#[should_panic]
fn test_uniform_intensity1() {
    test_tr_class(StreamType::Uniform, 1.0, 1.0);
}

#[test]
fn test_uniform_intensity1_e2d2_3() {
    test_tr_class(StreamType::Uniform, 1.0, 3.0);
}

#[test]
fn test_uniform_intensity1_e2d2_5() {
    test_tr_class(StreamType::Uniform, 1.0, 5.0);
}

#[test]
fn test_pareto_intensity1_e2d2_10() {
    test_tr_class_n(StreamType::Pareto, 1.0, 10.0, 10_000_000);
}

#[test]
fn test_pareto_intensity1_e2d2_3() {
    test_tr_class_n(StreamType::Pareto, 1.0, 3.0, 10_000_000);
}

#[test]
fn poisson_rejects_shape_other_than_one() {
    // D must equal E^2: any other shape parameter fails construction
    let (mean_p, var_p) = utils::get_e_d(SCALE, 2 * SCALE);
    assert!(Class::try_get_stream(StreamType::Poisson, mean_p, var_p).is_none());
    let (mean_ok, var_ok) = utils::get_e_d(SCALE, SCALE);
    assert!(Class::try_get_stream(StreamType::Poisson, mean_ok, var_ok).is_some());
}

#[test]
fn uniform_rejects_negative_lower_bound() {
    // e2d2 below three puts the lower bound under zero
    let (mean_u, var_u) = utils::get_e_d(SCALE, 2 * SCALE);
    assert!(Class::try_get_stream(StreamType::Uniform, mean_u, var_u).is_none());
    let (mean_ok, var_ok) = utils::get_e_d(SCALE, 3 * SCALE);
    assert!(Class::try_get_stream(StreamType::Uniform, mean_ok, var_ok).is_some());
}

#[test]
fn pareto_rejects_alpha_at_most_two() {
    // alpha = 1 + sqrt(1 + e2d2): a tiny e2d2 leaves alpha at two
    let mean_p: u64 = SCALE;
    let variance: u128 = (mean_p as u128) * (mean_p as u128) * (SCALE as u128) / 2;
    assert!(utils::pareto_get_scale_shape(mean_p, variance).is_none());
    let (mean_ok, var_ok) = utils::get_e_d(SCALE, 3 * SCALE);
    let fitted = utils::pareto_get_scale_shape(mean_ok, var_ok).unwrap();
    // alpha = 1 + sqrt(4) = 3, x_m = 2/3 of the mean
    assert_eq!(fitted.1, 3_000_000);
    assert_eq!(fitted.0, 666_666);
}

#[test]
fn gamma_rejects_degenerate_scale() {
    // an enormous shape parameter rounds the scale down to nothing
    let (mean_g, var_g) = utils::get_e_d(SCALE, 1_000_000_000_000_000_000);
    assert_eq!(var_g, 1);
    assert!(Class::try_get_stream(StreamType::Gamma, mean_g, var_g).is_none());
}

#[test]
fn uniform_exact_bounds() {
    // E = 1, e2d2 = 3: delta = sqrt(12/3) = 2, bounds [0, 2]; the fixed
    // point variance rounds down, so the root lands one micro-unit short
    let (mean_u, var_u) = utils::get_e_d(SCALE, 3 * SCALE);
    let (lo, hi) = utils::uniform_gen_min_max(mean_u, var_u).unwrap();
    assert_eq!(lo, 1);
    assert_eq!(hi, 1_999_999);
}

#[test]
fn gamma_exact_parameters() {
    // E = 1, e2d2 = 2: shape k = 2, scale theta = 1/2
    let (mean_g, var_g) = utils::get_e_d(SCALE, 2 * SCALE);
    let (shape, scale) = utils::gamma_get_scale_shape(mean_g, var_g).unwrap();
    assert_eq!(shape, 2_000_000);
    assert_eq!(scale, 500_000);
}

#[test]
fn class_derives_offered_load() {
    let c = Class::new(
        StreamType::Uniform,
        StreamType::Poisson,
        3 * SCALE,
        3 * SCALE,
        2 * SCALE,
        SCALE,
    );
    // a = 3 / 2
    assert_eq!(c.get_a(), 1_500_000);
    assert_eq!(c.get_end_intensity(), 2 * SCALE);
    // arrival intensity recovers new_int: a * mu = 1.5 * 2 = 3
    assert_eq!(c.get_new_intensity(), 3 * SCALE);
    assert_eq!(c.get_str_new_id(), 1);
    assert_eq!(c.get_str_end_id(), 0);
    assert_eq!(c.get_str_new_desc(), "Uniform");
    assert_eq!(c.get_str_end_desc(), "Poisson");
    assert_eq!(c.get_new_e2d2(), 3 * SCALE);
    assert_eq!(c.get_end_e2d2(), SCALE);
}
