//! Stream families, fitted distribution parameters and the traffic class
//! describing one experiment cell.

use vstd::prelude::*;

use crate::model::utils;
use crate::model::utils::{MEAN_LIMIT, VAR_LIMIT};
use crate::SCALE;

verus! {

/// The four supported renewal-stream families.
#[derive(Clone, Copy, PartialEq, Eq, Structural, Debug, Hash)]
pub enum StreamType {
    Poisson,
    Uniform,
    Gamma,
    Pareto,
}

/// Fitted parameters of one stream, all in micro-units.  Sampling from the
/// matching probability distribution happens outside this crate; these
/// fields are everything such a sampler needs.
#[derive(Clone, Copy, PartialEq, Eq, Structural, Debug)]
pub enum StreamOfEvents {
    /// Exponential inter-event times with rate `lambda`.
    Poisson { lambda: u64 },
    /// Uniform on `[t_min, t_max)`.
    Uniform { t_min: u64, t_max: u64 },
    /// Gamma with the given shape `k` and scale `theta`.
    Gamma { shape: u64, scale: u64 },
    /// Pareto with scale `x_m` and shape `alpha`.
    Pareto { scale: u64, shape: u64 },
}

/// An immutable descriptor of one experiment cell: arrival and service
/// families with their shape parameters, and the offered load `a`.
#[derive(Clone, Copy, PartialEq, Eq, Structural, Debug, Hash)]
pub struct Class {
    /// Traffic offered per system in micro-units; capacity does not matter.
    pub a: u64,

    /// Service intensity of a single call, in micro-units.
    pub mu: u64,

    pub arrival_stream_type: StreamType,
    pub arrival_e2d2: u64,
    pub service_stream_type: StreamType,
    pub service_e2d2: u64,
}

/// Whether a stream of the given family can be fitted to the given mean and
/// variance (micro-units): the success condition of `Class::try_get_stream`.
pub open spec fn spec_stream_fits(str_type: StreamType, mean: int, variance: int) -> bool {
    match str_type {
        StreamType::Poisson => variance == mean * mean,
        StreamType::Uniform => {
            let half = utils::spec_uniform_half_delta(variance);
            1 <= half <= mean
        },
        StreamType::Gamma => {
            let shape = utils::spec_gamma_shape(mean, variance);
            let scale = utils::spec_gamma_scale(mean, variance);
            variance >= 1 && 1 <= shape <= u64::MAX as int && 1 <= scale <= u64::MAX as int
        },
        StreamType::Pareto => utils::spec_pareto_fits(mean, variance),
    }
}

/// The fitted parameters when `spec_stream_fits` holds.
pub open spec fn spec_fit_stream(str_type: StreamType, mean: int, variance: int) -> StreamOfEvents {
    match str_type {
        StreamType::Poisson => StreamOfEvents::Poisson {
            lambda: ((SCALE * SCALE) as int / mean) as u64,
        },
        StreamType::Uniform => {
            let half = utils::spec_uniform_half_delta(variance);
            StreamOfEvents::Uniform { t_min: (mean - half) as u64, t_max: (mean + half) as u64 }
        },
        StreamType::Gamma => StreamOfEvents::Gamma {
            shape: utils::spec_gamma_shape(mean, variance) as u64,
            scale: utils::spec_gamma_scale(mean, variance) as u64,
        },
        StreamType::Pareto => StreamOfEvents::Pareto {
            scale: utils::spec_pareto_xm(mean, variance) as u64,
            shape: utils::spec_pareto_alpha(mean, variance) as u64,
        },
    }
}

impl Class {
    /// Numeric identifier of a stream family, as written to reports.
    pub fn get_str_id(stream_type: &StreamType) -> (r: u32)
        ensures
            r == match stream_type {
                StreamType::Poisson => 0u32,
                StreamType::Uniform => 1u32,
                StreamType::Gamma => 2u32,
                StreamType::Pareto => 3u32,
            },
    {
        match stream_type {
            StreamType::Poisson => 0,
            StreamType::Uniform => 1,
            StreamType::Gamma => 2,
            StreamType::Pareto => 3,
        }
    }

    /// Human-readable name of a stream family.
    pub fn get_str_desc(stream_type: &StreamType) -> (r: &'static str)
        ensures
            r@ == match stream_type {
                StreamType::Poisson => "Poisson"@,
                StreamType::Uniform => "Uniform"@,
                StreamType::Gamma => "Gamma"@,
                StreamType::Pareto => "Pareto"@,
            },
    {
        match stream_type {
            StreamType::Poisson => "Poisson",
            StreamType::Uniform => "Uniform",
            StreamType::Gamma => "Gamma",
            StreamType::Pareto => "Pareto",
        }
    }

    /// Fits a stream of the requested family to the given mean and variance
    /// (micro-units).  Returns `None` exactly when the family cannot take
    /// that combination: a Poisson stream needs `D == E^2`, a uniform stream
    /// a non-negative lower bound, a Pareto stream a shape above two.
    ///
    /// The conditions are exact in micro-units, so at the resolution limit
    /// they quantize: a mean of only a few micro-units cannot distinguish a
    /// shape within rounding of one for Poisson, and the uniform and Pareto
    /// boundaries sit within one micro-unit of their real-valued
    /// counterparts because the square root rounds down.
    pub fn try_get_stream(str_type: StreamType, mean: u64, variance: u128) -> (r: Option<
        StreamOfEvents,
    >)
        requires
            1 <= mean <= MEAN_LIMIT,
            variance <= VAR_LIMIT,
        ensures
            r is Some <==> spec_stream_fits(str_type, mean as int, variance as int),
            r is Some ==> r == Some(spec_fit_stream(str_type, mean as int, variance as int)),
    {
        match str_type {
            StreamType::Poisson => {
                proof {
                    assert((mean as int) * (mean as int) <= 1_000_000_000_000int
                        * 1_000_000_000_000int) by (nonlinear_arith)
                        requires 0 <= mean <= 1_000_000_000_000;
                }
                if variance != (mean as u128) * (mean as u128) {
                    return None;
                }
                let lambda: u64 = (SCALE * SCALE) / mean;
                Some(StreamOfEvents::Poisson { lambda })
            },
            StreamType::Uniform => {
                proof {
                    crate::math::lemma_isqrt(12 * variance as int);
                }
                match utils::uniform_gen_min_max(mean, variance) {
                    Some((t_min, t_max)) => {
                        if t_min == mean {
                            // zero width: the interval carries no randomness
                            None
                        } else {
                            Some(StreamOfEvents::Uniform { t_min, t_max })
                        }
                    },
                    None => None,
                }
            },
            StreamType::Gamma => {
                match utils::gamma_get_scale_shape(mean, variance) {
                    Some((shape, scale)) => Some(StreamOfEvents::Gamma { shape, scale }),
                    None => None,
                }
            },
            StreamType::Pareto => {
                match utils::pareto_get_scale_shape(mean, variance) {
                    Some((scale, shape)) => Some(StreamOfEvents::Pareto { scale, shape }),
                    None => None,
                }
            },
        }
    }

    /// Builds the descriptor; `a` is derived as `new_int / end_int`.
    /// All numeric arguments are in micro-units.
    pub fn new(
        new_stream_type: StreamType,
        end_stream_type: StreamType,
        new_int: u64,
        new_e2_d2: u64,
        end_int: u64,
        end_e2_d2: u64,
    ) -> (r: Class)
        requires
            1 <= end_int,
            new_int as int * SCALE as int / end_int as int <= u64::MAX as int,
        ensures
            r.a as int == new_int as int * SCALE as int / end_int as int,
            r.mu == end_int,
            r.arrival_stream_type == new_stream_type,
            r.arrival_e2d2 == new_e2_d2,
            r.service_stream_type == end_stream_type,
            r.service_e2d2 == end_e2_d2,
    {
        let a_wide: u128 = (new_int as u128) * (SCALE as u128) / (end_int as u128);
        Class {
            a: a_wide as u64,
            mu: end_int,
            arrival_stream_type: new_stream_type,
            arrival_e2d2: new_e2_d2,
            service_stream_type: end_stream_type,
            service_e2d2: end_e2_d2,
        }
    }

    /// Offered load per system, micro-units.
    pub fn get_a(&self) -> (r: u64)
        ensures
            r == self.a,
    {
        self.a
    }

    /// Arrival intensity in micro-units: the offered load is the ratio of
    /// arrival to service rate, so the arrival rate is `a` times `mu`.
    pub fn get_new_intensity(&self) -> (r: u64)
        requires
            self.a as int * self.mu as int / SCALE as int <= u64::MAX as int,
        ensures
            r as int == self.a as int * self.mu as int / SCALE as int,
    {
        let w: u128 = (self.a as u128) * (self.mu as u128) / (SCALE as u128);
        w as u64
    }

    /// Service intensity, micro-units.
    pub fn get_end_intensity(&self) -> (r: u64)
        ensures
            r == self.mu,
    {
        self.mu
    }

    /// Numeric identifier of the arrival family.
    pub fn get_str_new_id(&self) -> (r: u32)
        ensures
            r == Class::spec_stream_id(self.arrival_stream_type),
    {
        Class::get_str_id(&self.arrival_stream_type)
    }

    /// Name of the arrival family.
    pub fn get_str_new_desc(&self) -> (r: &'static str)
        ensures
            r@ == match self.arrival_stream_type {
                StreamType::Poisson => "Poisson"@,
                StreamType::Uniform => "Uniform"@,
                StreamType::Gamma => "Gamma"@,
                StreamType::Pareto => "Pareto"@,
            },
    {
        Class::get_str_desc(&self.arrival_stream_type)
    }

    /// Arrival shape parameter `E^2/D^2`, micro-units.
    pub fn get_new_e2d2(&self) -> (r: u64)
        ensures
            r == self.arrival_e2d2,
    {
        self.arrival_e2d2
    }

    /// Numeric identifier of the service family.
    pub fn get_str_end_id(&self) -> (r: u32)
        ensures
            r == Class::spec_stream_id(self.service_stream_type),
    {
        Class::get_str_id(&self.service_stream_type)
    }

    /// Name of the service family.
    pub fn get_str_end_desc(&self) -> (r: &'static str)
        ensures
            r@ == match self.service_stream_type {
                StreamType::Poisson => "Poisson"@,
                StreamType::Uniform => "Uniform"@,
                StreamType::Gamma => "Gamma"@,
                StreamType::Pareto => "Pareto"@,
            },
    {
        Class::get_str_desc(&self.service_stream_type)
    }

    /// Service shape parameter `E^2/D^2`, micro-units.
    pub fn get_end_e2d2(&self) -> (r: u64)
        ensures
            r == self.service_e2d2,
    {
        self.service_e2d2
    }

    /// The report identifier of a family, as a mathematical value.
    pub open spec fn spec_stream_id(stream_type: StreamType) -> u32 {
        match stream_type {
            StreamType::Poisson => 0u32,
            StreamType::Uniform => 1u32,
            StreamType::Gamma => 2u32,
            StreamType::Pareto => 3u32,
        }
    }
}

} // verus!
