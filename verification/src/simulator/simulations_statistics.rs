//! Aggregation of finalized statistics across independent series: per
//! occupancy level and per metric, the arithmetic mean and the population
//! standard deviation (two-pass, in exact integer arithmetic).

use vstd::prelude::*;

use crate::math::{isqrt, spec_isqrt};
use crate::model::class::Class;
use crate::simulator::single_statistics::{Macrostate, StatisticsFinalized, RATE_CAP};

verus! {

/// Largest number of series one aggregation accepts.
pub const MAX_SERIES: usize = 1_048_576;

/// Which metric of a finalized record is being aggregated.
#[derive(Clone, Copy, PartialEq, Eq, Structural, Debug)]
pub enum MetricKind {
    /// Occupancy probability at one level.
    P,
    /// Outbound arrival rate at one level.
    OutNew,
    /// Outbound departure rate at one level.
    OutEnd,
    /// Total processed event count of the run.
    Events,
}

/// The chosen metric as a function of a finalized record; `i` is the
/// occupancy level and is ignored for the event count.
pub open spec fn metric_fn(which: MetricKind, i: int) -> spec_fn(StatisticsFinalized) -> int {
    match which {
        MetricKind::P => |x: StatisticsFinalized| x.states@[i].p as int,
        MetricKind::OutNew => |x: StatisticsFinalized| x.states@[i].out_new as int,
        MetricKind::OutEnd => |x: StatisticsFinalized| x.states@[i].out_end as int,
        MetricKind::Events => |x: StatisticsFinalized| x.no_of_events as int,
    }
}

/// Sum of `f` over a sequence of records.
pub open spec fn sum_by(s: Seq<StatisticsFinalized>, f: spec_fn(StatisticsFinalized) -> int) -> int
    decreases s.len(),
{
    if s.len() == 0 {
        0
    } else {
        sum_by(s.drop_last(), f) + f(s.last())
    }
}

/// The squared deviation of `f` from `m`.
pub open spec fn dev_fn(f: spec_fn(StatisticsFinalized) -> int, m: int) -> spec_fn(
    StatisticsFinalized,
) -> int {
    |x: StatisticsFinalized| (f(x) - m) * (f(x) - m)
}

/// Arithmetic mean of `f` over the series, rounded down.
pub open spec fn spec_mean(s: Seq<StatisticsFinalized>, f: spec_fn(StatisticsFinalized) -> int) -> int {
    sum_by(s, f) / s.len() as int
}

/// Population standard deviation of `f` over the series: the integer root
/// of the mean squared deviation from the mean.
pub open spec fn spec_dev(s: Seq<StatisticsFinalized>, f: spec_fn(StatisticsFinalized) -> int) -> int {
    spec_isqrt(sum_by(s, dev_fn(f, spec_mean(s, f))) / s.len() as int)
}

/// Removing one element takes exactly its contribution out of the sum.
proof fn lemma_sum_by_remove(
    s: Seq<StatisticsFinalized>,
    j: int,
    f: spec_fn(StatisticsFinalized) -> int,
)
    requires
        0 <= j < s.len(),
    ensures
        sum_by(s.remove(j), f) == sum_by(s, f) - f(s[j]),
    decreases s.len(),
{
    if j == s.len() - 1 {
        assert(s.remove(j) =~= s.drop_last());
    } else {
        assert(s.remove(j).drop_last() =~= s.drop_last().remove(j));
        assert(s.remove(j).last() == s.last());
        lemma_sum_by_remove(s.drop_last(), j, f);
    }
}

/// Two orderings of the same series have the same sum.
pub proof fn lemma_sum_by_permutation(
    s1: Seq<StatisticsFinalized>,
    s2: Seq<StatisticsFinalized>,
    f: spec_fn(StatisticsFinalized) -> int,
)
    requires
        s1.to_multiset() == s2.to_multiset(),
    ensures
        sum_by(s1, f) == sum_by(s2, f),
    decreases s1.len(),
{
    s1.to_multiset_ensures();
    s2.to_multiset_ensures();
    if s1.len() == 0 {
        assert(s2.len() == 0);
    } else {
        let x = s1.last();
        assert(s1.contains(x));
        assert(s1.to_multiset().count(x) > 0);
        assert(s2.contains(x));
        let j = choose|j: int| 0 <= j < s2.len() && s2[j] == x;
        assert(s1.drop_last() =~= s1.remove(s1.len() - 1));
        assert(s1.remove(s1.len() - 1).to_multiset() =~= s1.to_multiset().remove(x));
        assert(s2.remove(j).to_multiset() =~= s2.to_multiset().remove(x));
        lemma_sum_by_permutation(s1.drop_last(), s2.remove(j), f);
        lemma_sum_by_remove(s2, j, f);
    }
}

/// Aggregation is order-independent: any two orderings of the same set of
/// finalized series give the same mean and the same standard deviation for
/// every metric.  (The list of run identifiers follows input order and is
/// not a statistic.)
pub proof fn lemma_aggregation_order_independent(
    s1: Seq<StatisticsFinalized>,
    s2: Seq<StatisticsFinalized>,
    f: spec_fn(StatisticsFinalized) -> int,
)
    requires
        s1.to_multiset() == s2.to_multiset(),
    ensures
        spec_mean(s1, f) == spec_mean(s2, f),
        spec_dev(s1, f) == spec_dev(s2, f),
{
    s1.to_multiset_ensures();
    s2.to_multiset_ensures();
    lemma_sum_by_permutation(s1, s2, f);
    lemma_sum_by_permutation(s1, s2, dev_fn(f, spec_mean(s1, f)));
}

/// A single series aggregates to itself: the mean equals that run's value
/// and the standard deviation is exactly zero, for every metric.
pub proof fn lemma_aggregation_single(
    s: Seq<StatisticsFinalized>,
    f: spec_fn(StatisticsFinalized) -> int,
)
    requires
        s.len() == 1,
    ensures
        spec_mean(s, f) == f(s[0]),
        spec_dev(s, f) == 0,
{
    assert(s.drop_last().len() == 0);
    assert(s.last() == s[0]);
    assert(sum_by(s.drop_last(), f) == 0);
    assert(sum_by(s, f) == f(s[0]));
    let m = spec_mean(s, f);
    // the mean over a single record divides its value by a length of one
    assert(m == f(s[0]) / 1);
    let g = dev_fn(f, m);
    assert(g(s[0]) == (f(s[0]) - m) * (f(s[0]) - m));
    assert(f(s[0]) - m == 0);
    assert(g(s[0]) == 0) by (nonlinear_arith)
        requires g(s[0]) == (f(s[0]) - m) * (f(s[0]) - m), f(s[0]) - m == 0;
    assert(sum_by(s.drop_last(), g) == 0);
    assert(sum_by(s, g) == 0);
    assert(spec_isqrt(0) == 0);
}

/// One traffic class with its aggregated results, one per capacity: the
/// unit a report row is built from.
#[derive(Clone, Debug)]
pub struct SimStatisticsMultiV {
    pub tr_class: Class,
    pub results: Vec<StatisticsMultiSimulations>,
}

impl SimStatisticsMultiV {
    /// An empty collection of results for one traffic class.
    pub fn new(tr_class: Class) -> (r: SimStatisticsMultiV)
        ensures
            r.tr_class == tr_class,
            r.results@.len() == 0,
    {
        SimStatisticsMultiV { tr_class, results: Vec::new() }
    }
}

/// Aggregated statistics of one (class, capacity) cell across its series.
#[derive(Clone, Debug)]
pub struct StatisticsMultiSimulations {
    pub uuids: Vec<u128>,
    pub v: usize,
    pub states_avarage: Vec<Macrostate>,
    pub states_deviation: Vec<Macrostate>,
    pub no_of_events_avg: u64,
    pub no_of_events_dev: u64,
}

/// `|a - b| * |a - b| == (a - b)^2` whichever way the difference is taken.
proof fn lemma_abs_square(a: int, b: int, d: int)
    requires
        d == a - b || d == b - a,
    ensures
        d * d == (a - b) * (a - b),
{
    assert(d * d == (a - b) * (a - b)) by (nonlinear_arith)
        requires d == a - b || d == b - a;
}

/// Reads the chosen metric out of one record.
fn metric_read(x: &StatisticsFinalized, which: MetricKind, i: usize) -> (r: u64)
    requires
        x.wf(),
        !(which is Events) ==> i < x.states@.len(),
    ensures
        r as int == metric_fn(which, i as int)(*x),
        r <= RATE_CAP,
{
    match which {
        MetricKind::P => x.states[i].p,
        MetricKind::OutNew => x.states[i].out_new,
        MetricKind::OutEnd => x.states[i].out_end,
        MetricKind::Events => x.no_of_events,
    }
}

/// Two-pass mean and population standard deviation of one metric over the
/// series, in exact integer arithmetic.
fn mean_dev(statistics: &Vec<StatisticsFinalized>, which: MetricKind, i: usize) -> (r: (u64, u64))
    requires
        1 <= statistics@.len() <= MAX_SERIES,
        forall|k: int| 0 <= k < statistics@.len() ==> (#[trigger] statistics@[k]).wf(),
        !(which is Events) ==> forall|k: int|
            0 <= k < statistics@.len() ==> i < (#[trigger] statistics@[k]).states@.len(),
    ensures
        r.0 as int == spec_mean(statistics@, metric_fn(which, i as int)),
        r.1 as int == spec_dev(statistics@, metric_fn(which, i as int)),
        r.0 <= RATE_CAP,
{
    let ghost f = metric_fn(which, i as int);
    let ghost s = statistics@;
    let n = statistics.len();
    let mut sum: u128 = 0;
    let mut k: usize = 0;
    proof {
        assert(s.take(0) =~= Seq::<StatisticsFinalized>::empty());
    }
    while k < n
        invariant
            k <= n,
            n == s.len(),
            s == statistics@,
            f == metric_fn(which, i as int),
            1 <= n <= MAX_SERIES,
            forall|t: int| 0 <= t < s.len() ==> (#[trigger] s[t]).wf(),
            !(which is Events) ==> forall|t: int|
                0 <= t < s.len() ==> i < (#[trigger] s[t]).states@.len(),
            sum as int == sum_by(s.take(k as int), f),
            sum <= (k as int) * (RATE_CAP as int),
        decreases n - k,
    {
        let x = metric_read(&statistics[k], which, i);
        proof {
            assert(s.take(k as int + 1).drop_last() =~= s.take(k as int));
            assert(s.take(k as int + 1).last() == s[k as int]);
        }
        sum = sum + (x as u128);
        k += 1;
    }
    proof {
        assert(s.take(n as int) =~= s);
        crate::model::utils::lemma_div_below(sum as int, n as int, RATE_CAP as int);
        assert((n as int) * (RATE_CAP as int) == (RATE_CAP as int) * (n as int));
    }
    let mean: u64 = (sum / (n as u128)) as u64;
    let ghost m = spec_mean(s, f);
    let ghost g = dev_fn(f, m);
    let mut dev_sum: u128 = 0;
    let mut k2: usize = 0;
    proof {
        assert(s.take(0) =~= Seq::<StatisticsFinalized>::empty());
    }
    while k2 < n
        invariant
            k2 <= n,
            n == s.len(),
            s == statistics@,
            f == metric_fn(which, i as int),
            m == spec_mean(s, f),
            g == dev_fn(f, m),
            mean as int == m,
            mean <= RATE_CAP,
            1 <= n <= MAX_SERIES,
            forall|t: int| 0 <= t < s.len() ==> (#[trigger] s[t]).wf(),
            !(which is Events) ==> forall|t: int|
                0 <= t < s.len() ==> i < (#[trigger] s[t]).states@.len(),
            dev_sum as int == sum_by(s.take(k2 as int), g),
            dev_sum <= (k2 as int) * 81_129_638_414_606_681_695_789_005_144_064,
        decreases n - k2,
    {
        let x = metric_read(&statistics[k2], which, i);
        let d: u64 = if x >= mean {
            x - mean
        } else {
            mean - x
        };
        proof {
            assert(s.take(k2 as int + 1).drop_last() =~= s.take(k2 as int));
            assert(s.take(k2 as int + 1).last() == s[k2 as int]);
            lemma_abs_square(x as int, m, d as int);
            assert((d as u128) * (d as u128) <= 81_129_638_414_606_681_695_789_005_144_064u128)
                by (nonlinear_arith)
                requires 0 <= d, d <= 9_007_199_254_740_992u64;
        }
        dev_sum = dev_sum + (d as u128) * (d as u128);
        k2 += 1;
    }
    proof {
        assert(s.take(n as int) =~= s);
    }
    let dev: u64 = isqrt(dev_sum / (n as u128));
    (mean, dev)
}

impl StatisticsMultiSimulations {
    /// Aggregates the series of one (class, capacity) cell: per occupancy
    /// level and per metric the arithmetic mean across series, then the
    /// population standard deviation around that mean; the same pair for
    /// the total event count.  At least one completed series is required.
    pub fn statistics_proc(statistics: &Vec<StatisticsFinalized>, v: usize) -> (r:
        StatisticsMultiSimulations)
        requires
            v < usize::MAX,
            1 <= statistics@.len() <= MAX_SERIES,
            forall|k: int|
                0 <= k < statistics@.len() ==> (#[trigger] statistics@[k]).wf()
                    && statistics@[k].v == v,
        ensures
            r.v == v,
            r.uuids@.len() == statistics@.len(),
            forall|k: int|
                0 <= k < statistics@.len() ==> r.uuids@[k] == (
                #[trigger] statistics@[k]).metadata.uuid,
            r.states_avarage@.len() == v + 1,
            r.states_deviation@.len() == v + 1,
            forall|i: int|
                0 <= i <= v ==> {
                    &&& (#[trigger] r.states_avarage@[i]).p as int == spec_mean(
                        statistics@,
                        metric_fn(MetricKind::P, i),
                    )
                    &&& r.states_avarage@[i].out_new as int == spec_mean(
                        statistics@,
                        metric_fn(MetricKind::OutNew, i),
                    )
                    &&& r.states_avarage@[i].out_end as int == spec_mean(
                        statistics@,
                        metric_fn(MetricKind::OutEnd, i),
                    )
                },
            forall|i: int|
                0 <= i <= v ==> {
                    &&& (#[trigger] r.states_deviation@[i]).p as int == spec_dev(
                        statistics@,
                        metric_fn(MetricKind::P, i),
                    )
                    &&& r.states_deviation@[i].out_new as int == spec_dev(
                        statistics@,
                        metric_fn(MetricKind::OutNew, i),
                    )
                    &&& r.states_deviation@[i].out_end as int == spec_dev(
                        statistics@,
                        metric_fn(MetricKind::OutEnd, i),
                    )
                },
            r.no_of_events_avg as int == spec_mean(statistics@, metric_fn(MetricKind::Events, 0)),
            r.no_of_events_dev as int == spec_dev(statistics@, metric_fn(MetricKind::Events, 0)),
    {
        let n = statistics.len();
        let mut uuids: Vec<u128> = Vec::new();
        let mut k: usize = 0;
        while k < n
            invariant
                k <= n,
                n == statistics@.len(),
                uuids@.len() == k,
                forall|t: int|
                    0 <= t < k ==> uuids@[t] == (#[trigger] statistics@[t]).metadata.uuid,
            decreases n - k,
        {
            uuids.push(statistics[k].metadata.uuid);
            k += 1;
        }

        proof {
            assert(statistics@[0].wf());
        }
        let mut states_avarage: Vec<Macrostate> = Vec::new();
        let mut states_deviation: Vec<Macrostate> = Vec::new();
        let mut i: usize = 0;
        while i < v + 1
            invariant
                v < usize::MAX,
                i <= v + 1,
                n == statistics@.len(),
                1 <= n <= MAX_SERIES,
                forall|t: int|
                    0 <= t < statistics@.len() ==> (#[trigger] statistics@[t]).wf()
                        && statistics@[t].v == v,
                states_avarage@.len() == i,
                states_deviation@.len() == i,
                forall|j: int|
                    0 <= j < i ==> {
                        &&& (#[trigger] states_avarage@[j]).p as int == spec_mean(
                            statistics@,
                            metric_fn(MetricKind::P, j),
                        )
                        &&& states_avarage@[j].out_new as int == spec_mean(
                            statistics@,
                            metric_fn(MetricKind::OutNew, j),
                        )
                        &&& states_avarage@[j].out_end as int == spec_mean(
                            statistics@,
                            metric_fn(MetricKind::OutEnd, j),
                        )
                    },
                forall|j: int|
                    0 <= j < i ==> {
                        &&& (#[trigger] states_deviation@[j]).p as int == spec_dev(
                            statistics@,
                            metric_fn(MetricKind::P, j),
                        )
                        &&& states_deviation@[j].out_new as int == spec_dev(
                            statistics@,
                            metric_fn(MetricKind::OutNew, j),
                        )
                        &&& states_deviation@[j].out_end as int == spec_dev(
                            statistics@,
                            metric_fn(MetricKind::OutEnd, j),
                        )
                    },
            decreases v + 1 - i,
        {
            let (avg_p, dev_p) = mean_dev(statistics, MetricKind::P, i);
            let (avg_new, dev_new) = mean_dev(statistics, MetricKind::OutNew, i);
            let (avg_end, dev_end) = mean_dev(statistics, MetricKind::OutEnd, i);
            states_avarage.push(Macrostate { p: avg_p, out_new: avg_new, out_end: avg_end });
            states_deviation.push(Macrostate { p: dev_p, out_new: dev_new, out_end: dev_end });
            i += 1;
        }

        let (events_avg, events_dev) = mean_dev(statistics, MetricKind::Events, 0);

        StatisticsMultiSimulations {
            uuids,
            v,
            states_avarage,
            states_deviation,
            no_of_events_avg: events_avg,
            no_of_events_dev: events_dev,
        }
    }
}

} // verus!
