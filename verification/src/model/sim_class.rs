//! A traffic class together with its two fitted streams: everything a
//! simulation run needs to describe one experiment cell.

use vstd::prelude::*;

use crate::model::class::{spec_fit_stream, spec_stream_fits, Class, StreamOfEvents, StreamType};
use crate::model::utils;
use crate::SCALE;

verus! {

/// A fitted traffic class: the descriptor plus the arrival and service
/// stream parameters.  Immutable once constructed.
#[derive(Clone, Copy, PartialEq, Eq, Structural, Debug)]
pub struct SimClass {
    pub tr_class: Class,
    pub arrival_stream: StreamOfEvents,
    pub service_stream: StreamOfEvents,
}

impl SimClass {
    /// Fits both streams from intensities and shape parameters
    /// (micro-units).  Returns `None` when either family cannot meet the
    /// requested mean and variance: the caller skips that parameter cell.
    pub fn new(
        new_stream_type: StreamType,
        end_stream_type: StreamType,
        new_int: u64,
        new_e2_d2: u64,
        end_int: u64,
        end_e2_d2: u64,
    ) -> (r: Option<SimClass>)
        requires
            1 <= new_int <= SCALE * SCALE,
            1 <= end_int <= SCALE * SCALE,
            1 <= new_e2_d2,
            1 <= end_e2_d2,
            new_int as int * SCALE as int / end_int as int <= u64::MAX as int,
        ensures
            ({
                let arrival_mean = utils::spec_mean(new_int as int);
                let arrival_var = utils::spec_variance(arrival_mean, new_e2_d2 as int);
                let service_mean = utils::spec_mean(end_int as int);
                let service_var = utils::spec_variance(service_mean, end_e2_d2 as int);
                &&& (r is Some <==> spec_stream_fits(new_stream_type, arrival_mean, arrival_var)
                    && spec_stream_fits(end_stream_type, service_mean, service_var))
                &&& r is Some ==> {
                    let sc = r->0;
                    &&& sc.arrival_stream == spec_fit_stream(
                        new_stream_type,
                        arrival_mean,
                        arrival_var,
                    )
                    &&& sc.service_stream == spec_fit_stream(
                        end_stream_type,
                        service_mean,
                        service_var,
                    )
                    &&& sc.tr_class.a as int == new_int as int * SCALE as int / end_int as int
                    &&& sc.tr_class.mu == end_int
                    &&& sc.tr_class.arrival_stream_type == new_stream_type
                    &&& sc.tr_class.arrival_e2d2 == new_e2_d2
                    &&& sc.tr_class.service_stream_type == end_stream_type
                    &&& sc.tr_class.service_e2d2 == end_e2_d2
                }
            }),
    {
        let (arrival_mean, arrival_variance) = utils::get_e_d(new_int, new_e2_d2);
        let (service_mean, service_variance) = utils::get_e_d(end_int, end_e2_d2);

        let arrival_str_opt = Self::try_get_stream(new_stream_type, arrival_mean, arrival_variance);
        let service_str_opt = Self::try_get_stream(end_stream_type, service_mean, service_variance);

        match (arrival_str_opt, service_str_opt) {
            (Some(arrival_str), Some(service_str)) => Some(
                SimClass {
                    tr_class: Class::new(
                        new_stream_type,
                        end_stream_type,
                        new_int,
                        new_e2_d2,
                        end_int,
                        end_e2_d2,
                    ),
                    arrival_stream: arrival_str,
                    service_stream: service_str,
                },
            ),
            _ => None,
        }
    }

    /// Fits one stream; the same operation as `Class::try_get_stream`.
    pub fn try_get_stream(str_type: StreamType, mean: u64, variance: u128) -> (r: Option<
        StreamOfEvents,
    >)
        requires
            1 <= mean <= utils::MEAN_LIMIT,
            variance <= utils::VAR_LIMIT,
        ensures
            r is Some <==> spec_stream_fits(str_type, mean as int, variance as int),
            r is Some ==> r == Some(spec_fit_stream(str_type, mean as int, variance as int)),
    {
        Class::try_get_stream(str_type, mean, variance)
    }

    /// Offered load, micro-units.
    pub fn get_a(&self) -> (r: u64)
        ensures
            r == self.tr_class.a,
    {
        self.tr_class.get_a()
    }

    /// The fitted arrival stream parameters.
    pub fn get_arrival_stream(&self) -> (r: StreamOfEvents)
        ensures
            r == self.arrival_stream,
    {
        self.arrival_stream
    }

    /// The fitted service stream parameters.
    pub fn get_service_stream(&self) -> (r: StreamOfEvents)
        ensures
            r == self.service_stream,
    {
        self.service_stream
    }

    /// Numeric identifier of the arrival family.
    pub fn get_str_new_id(&self) -> (r: u32)
        ensures
            r == Class::spec_stream_id(self.tr_class.arrival_stream_type),
    {
        self.tr_class.get_str_new_id()
    }

    /// Name of the arrival family.
    pub fn get_str_new_desc(&self) -> (r: &'static str)
        ensures
            r@ == match self.tr_class.arrival_stream_type {
                StreamType::Poisson => "Poisson"@,
                StreamType::Uniform => "Uniform"@,
                StreamType::Gamma => "Gamma"@,
                StreamType::Pareto => "Pareto"@,
            },
    {
        self.tr_class.get_str_new_desc()
    }

    /// Arrival shape parameter, micro-units.
    pub fn get_new_e2d2(&self) -> (r: u64)
        ensures
            r == self.tr_class.arrival_e2d2,
    {
        self.tr_class.get_new_e2d2()
    }

    /// Numeric identifier of the service family.
    pub fn get_str_end_id(&self) -> (r: u32)
        ensures
            r == Class::spec_stream_id(self.tr_class.service_stream_type),
    {
        self.tr_class.get_str_end_id()
    }

    /// Name of the service family.
    pub fn get_str_end_desc(&self) -> (r: &'static str)
        ensures
            r@ == match self.tr_class.service_stream_type {
                StreamType::Poisson => "Poisson"@,
                StreamType::Uniform => "Uniform"@,
                StreamType::Gamma => "Gamma"@,
                StreamType::Pareto => "Pareto"@,
            },
    {
        self.tr_class.get_str_end_desc()
    }

    /// Service shape parameter, micro-units.
    pub fn get_end_e2d2(&self) -> (r: u64)
        ensures
            r == self.tr_class.service_e2d2,
    {
        self.tr_class.get_end_e2d2()
    }
}

} // verus!
