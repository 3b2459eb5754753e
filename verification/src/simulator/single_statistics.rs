//! Raw and finalized statistics of a single simulation run.
//!
//! Times are micro-units; probabilities and rates in the finalized record
//! are micro-units as well, capped at `RATE_CAP` so that any later
//! aggregation arithmetic stays exact.

use vstd::prelude::*;

use crate::SCALE;

verus! {

/// The kind of transition one event caused.
#[derive(Clone, Copy, PartialEq, Eq, Structural, Debug)]
pub enum EventType {
    /// An arrival that was admitted.
    NewCall,
    /// A service completion.
    EndCall,
    /// An arrival that found no free unit.
    LostCall,
}

/// Upper bound on the accumulated simulated time, micro-units.
pub const TIME_LIMIT: u128 = 10_000_000_000_000_000_000_000_000_000_000;

/// Cap on every finalized metric, micro-units: small enough that sums of
/// squared deviations over a million series cannot overflow.
pub const RATE_CAP: u64 = 9_007_199_254_740_992;

/// Raw per-occupancy-level accumulators: total sojourn time and outbound
/// transition counts.
#[derive(Clone, Copy, PartialEq, Eq, Structural, Debug)]
pub struct MacrostateRaw {
    pub duration: u128,
    pub no_out_new: u64,
    pub no_out_end: u64,
}

/// Raw statistics of one run: one accumulator per occupancy level plus the
/// total observed time.
#[derive(Clone, Debug)]
pub struct StatisticsRunExperiment {
    pub states: Vec<MacrostateRaw>,
    pub time_total: u128,
}

/// Finalized per-occupancy-level summary: occupancy probability and
/// outbound arrival and departure rates, micro-units.
#[derive(Clone, Copy, PartialEq, Eq, Structural, Debug)]
pub struct Macrostate {
    pub p: u64,
    pub out_new: u64,
    pub out_end: u64,
}

/// Metadata of a finalized run: how well it converged, which run produced
/// it, and under which tool version.
#[derive(Clone, Debug)]
pub struct StatisticsFinalizedMetadata {
    pub min_no_of_events_per_state: u64,
    pub uuid: u128,
    pub version: String,
}

/// The immutable result of one finished run: the unit of persistence and
/// of cross-series aggregation.
#[derive(Clone, Debug)]
pub struct StatisticsFinalized {
    pub states: Vec<Macrostate>,
    pub v: usize,
    pub no_of_events: u64,
    pub metadata: StatisticsFinalizedMetadata,
}

/// Occupancy probability: the share of total time spent at the level,
/// micro-units; zero while nothing has been observed.
pub open spec fn spec_p(duration: int, total: int) -> int {
    if total == 0 {
        0
    } else {
        duration * (SCALE as int) / total
    }
}

/// Outbound transition rate: events per time unit at the level,
/// micro-units, capped at `RATE_CAP`; zero while the level was never
/// occupied.
pub open spec fn spec_rate(count: int, duration: int) -> int {
    if duration == 0 {
        0
    } else {
        let r = count * (SCALE as int) * (SCALE as int) / duration;
        if r > RATE_CAP as int {
            RATE_CAP as int
        } else {
            r
        }
    }
}

/// The accumulator after one more event of the given kind that spent
/// `time` at this level.
pub open spec fn spec_macro_updated(m: MacrostateRaw, event_type: EventType, time: int) -> MacrostateRaw {
    MacrostateRaw {
        duration: (m.duration + time) as u128,
        no_out_new: if event_type is EndCall {
            m.no_out_new
        } else {
            (m.no_out_new + 1) as u64
        },
        no_out_end: if event_type is EndCall {
            (m.no_out_end + 1) as u64
        } else {
            m.no_out_end
        },
    }
}

/// Relates raw statistics before and after recording one event.
pub open spec fn spec_stats_updated(
    pre: StatisticsRunExperiment,
    post: StatisticsRunExperiment,
    event_type: EventType,
    old_state: int,
    time: int,
) -> bool {
    &&& post.time_total == pre.time_total + time
    &&& post.states@ == pre.states@.update(
        old_state,
        spec_macro_updated(pre.states@[old_state], event_type, time),
    )
}

impl MacrostateRaw {
    /// A zeroed accumulator.
    pub fn new() -> (r: MacrostateRaw)
        ensures
            r.duration == 0,
            r.no_out_new == 0,
            r.no_out_end == 0,
    {
        MacrostateRaw { duration: 0, no_out_new: 0, no_out_end: 0 }
    }

    /// Resets the accumulator.
    pub fn clear_statistics(&mut self)
        ensures
            final(self).duration == 0,
            final(self).no_out_new == 0,
            final(self).no_out_end == 0,
    {
        self.no_out_end = 0;
        self.no_out_new = 0;
        self.duration = 0;
    }

    /// Normalizes the accumulator against the total observed time.
    pub fn get_macrostate_statistics(&self, total_time: u128) -> (r: Macrostate)
        requires
            self.duration <= total_time,
            total_time <= TIME_LIMIT,
        ensures
            r.p as int == spec_p(self.duration as int, total_time as int),
            r.out_new as int == spec_rate(self.no_out_new as int, self.duration as int),
            r.out_end as int == spec_rate(self.no_out_end as int, self.duration as int),
            r.p <= RATE_CAP,
            r.out_new <= RATE_CAP,
            r.out_end <= RATE_CAP,
    {
        let p: u64 = if total_time == 0 {
            0
        } else {
            proof {
                assert(self.duration * (SCALE as u128)
                    <= 10_000_000_000_000_000_000_000_000_000_000_000_000u128) by (nonlinear_arith)
                    requires
                        self.duration <= 10_000_000_000_000_000_000_000_000_000_000u128,
                        SCALE == 1_000_000u64,
                ;
                crate::model::utils::lemma_div_below(
                    self.duration as int * SCALE as int,
                    total_time as int,
                    SCALE as int,
                );
                assert(self.duration as int * SCALE as int <= SCALE as int * total_time as int)
                    by (nonlinear_arith)
                    requires self.duration <= total_time;
            }
            ((self.duration * (SCALE as u128)) / total_time) as u64
        };
        let out_new: u64 = Self::rate_of(self.no_out_new, self.duration);
        let out_end: u64 = Self::rate_of(self.no_out_end, self.duration);
        proof {
            assert(SCALE <= RATE_CAP);
        }
        Macrostate { p, out_new, out_end }
    }

    /// Events per time unit, capped: the executable form of `spec_rate`.
    fn rate_of(count: u64, duration: u128) -> (r: u64)
        ensures
            r as int == spec_rate(count as int, duration as int),
            r <= RATE_CAP,
    {
        if duration == 0 {
            return 0;
        }
        proof {
            assert((count as u128) * (SCALE as u128) <= 20_000_000_000_000_000_000_000_000u128
                && (count as u128) * (SCALE as u128) * (SCALE as u128)
                <= 20_000_000_000_000_000_000_000_000_000_000u128) by (nonlinear_arith)
                requires count <= 18_446_744_073_709_551_615u64, SCALE == 1_000_000u64;
        }
        let wide: u128 = (count as u128) * (SCALE as u128) * (SCALE as u128) / duration;
        if wide > RATE_CAP as u128 {
            RATE_CAP
        } else {
            wide as u64
        }
    }
}

/// Total of the per-level sojourn times.
pub open spec fn sum_durations(s: Seq<MacrostateRaw>) -> int
    decreases s.len(),
{
    if s.len() == 0 {
        0
    } else {
        sum_durations(s.drop_last()) + s.last().duration
    }
}

/// A sequence of zeroed accumulators sums to no time at all.
pub proof fn lemma_sum_durations_zero(s: Seq<MacrostateRaw>)
    requires
        forall|i: int| 0 <= i < s.len() ==> (#[trigger] s[i]).duration == 0,
    ensures
        sum_durations(s) == 0,
    decreases s.len(),
{
    if s.len() > 0 {
        lemma_sum_durations_zero(s.drop_last());
    }
}

/// Replacing one accumulator moves the total by the duration swapped in
/// and out.
pub proof fn lemma_sum_durations_update(s: Seq<MacrostateRaw>, i: int, m: MacrostateRaw)
    requires
        0 <= i < s.len(),
    ensures
        sum_durations(s.update(i, m)) == sum_durations(s) - s[i].duration + m.duration,
    decreases s.len(),
{
    let u = s.update(i, m);
    if i == s.len() - 1 {
        assert(u.drop_last() =~= s.drop_last());
    } else {
        assert(u.drop_last() =~= s.drop_last().update(i, m));
        assert(u.last() == s.last());
        lemma_sum_durations_update(s.drop_last(), i, m);
    }
}

/// Total of the per-level probabilities of a finalized record.
pub open spec fn sum_p(s: Seq<Macrostate>) -> int
    decreases s.len(),
{
    if s.len() == 0 {
        0
    } else {
        sum_p(s.drop_last()) + s.last().p
    }
}

/// Total of the probabilities the raw accumulators normalize to.
pub open spec fn sum_spec_p(s: Seq<MacrostateRaw>, total: int) -> int
    decreases s.len(),
{
    if s.len() == 0 {
        0
    } else {
        sum_spec_p(s.drop_last(), total) + spec_p(s.last().duration as int, total)
    }
}

/// Pointwise-equal probabilities have equal totals.
proof fn lemma_sum_p_pointwise(raw: Seq<MacrostateRaw>, fin: Seq<Macrostate>, total: int)
    requires
        raw.len() == fin.len(),
        forall|i: int|
            0 <= i < raw.len() ==> (#[trigger] fin[i]).p as int == spec_p(
                raw[i].duration as int,
                total,
            ),
    ensures
        sum_p(fin) == sum_spec_p(raw, total),
    decreases raw.len(),
{
    if raw.len() > 0 {
        lemma_sum_p_pointwise(raw.drop_last(), fin.drop_last(), total);
    }
}

/// The floor divisions bracket the probability total: `total` times the
/// sum stays within `SCALE` times the summed durations, short by less than
/// `total` per level.
proof fn lemma_sum_spec_p_brackets(s: Seq<MacrostateRaw>, total: int)
    requires
        1 <= total,
    ensures
        total * sum_spec_p(s, total) <= (SCALE as int) * sum_durations(s),
        (SCALE as int) * sum_durations(s) <= total * sum_spec_p(s, total) + total * s.len(),
        s.len() >= 1 ==> (SCALE as int) * sum_durations(s) < total * sum_spec_p(s, total) + total
            * s.len(),
    decreases s.len(),
{
    if s.len() == 0 {
        assert(total * 0 == 0) by (nonlinear_arith);
        assert((SCALE as int) * 0 == 0) by (nonlinear_arith);
    } else {
        lemma_sum_spec_p_brackets(s.drop_last(), total);
        let ps = sum_spec_p(s.drop_last(), total);
        let ds = sum_durations(s.drop_last());
        let d = s.last().duration as int;
        let p = spec_p(d, total);
        let n = s.drop_last().len() as int;
        vstd::arithmetic::div_mod::lemma_fundamental_div_mod(d * (SCALE as int), total);
        vstd::arithmetic::div_mod::lemma_mod_bound(d * (SCALE as int), total);
        assert(d * (SCALE as int) >= 0) by (nonlinear_arith)
            requires 0 <= d, SCALE == 1_000_000u64;
        assert(p == d * (SCALE as int) / total);
        assert(total * (ps + p) <= (SCALE as int) * (ds + d)) by (nonlinear_arith)
            requires
                total * ps <= (SCALE as int) * ds,
                d * (SCALE as int) == total * p + d * (SCALE as int) % total,
                0 <= d * (SCALE as int) % total,
        ;
        assert((SCALE as int) * (ds + d) < total * (ps + p) + total * (n + 1)) by (nonlinear_arith)
            requires
                (SCALE as int) * ds <= total * ps + total * n,
                d * (SCALE as int) == total * p + d * (SCALE as int) % total,
                d * (SCALE as int) % total < total,
        ;
    }
}

/// Finalized occupancy probabilities sum to one, up to the floor rounding
/// of each level: with the total time equal to the summed sojourn times,
/// the per-level probabilities add up to at most `SCALE` (one, in
/// micro-units) and miss it by less than one micro-unit per level.
pub proof fn lemma_probabilities_sum_to_one(
    raw: Seq<MacrostateRaw>,
    fin: Seq<Macrostate>,
    total: int,
)
    requires
        1 <= total,
        total == sum_durations(raw),
        raw.len() == fin.len(),
        forall|i: int|
            0 <= i < raw.len() ==> (#[trigger] fin[i]).p as int == spec_p(
                raw[i].duration as int,
                total,
            ),
    ensures
        (SCALE as int) - fin.len() < sum_p(fin) <= SCALE as int,
{
    lemma_sum_p_pointwise(raw, fin, total);
    lemma_sum_spec_p_brackets(raw, total);
    let sp = sum_spec_p(raw, total);
    let n = raw.len() as int;
    assert(sp <= SCALE as int) by (nonlinear_arith)
        requires total * sp <= (SCALE as int) * total, 1 <= total;
    assert((SCALE as int) - n < sp) by (nonlinear_arith)
        requires (SCALE as int) * total < total * sp + total * n, 1 <= total;
}

impl StatisticsRunExperiment {
    /// Every level's sojourn time is within the total.
    pub open spec fn durations_ok(self) -> bool {
        forall|i: int|
            0 <= i < self.states@.len() ==> (#[trigger] self.states@[i]).duration
                <= self.time_total
    }

    /// The total observed time is exactly the sum of the per-level sojourn
    /// times: together they make the occupancy probabilities a partition.
    pub open spec fn total_is_sum(self) -> bool {
        self.time_total as int == sum_durations(self.states@)
    }

    /// All accumulators zero.
    pub open spec fn is_cleared(self) -> bool {
        &&& self.time_total == 0
        &&& forall|i: int|
            0 <= i < self.states@.len() ==> (#[trigger] self.states@[i]) == (MacrostateRaw {
                duration: 0,
                no_out_new: 0,
                no_out_end: 0,
            })
    }

    /// Fresh accumulators for levels `0..=v`.
    pub fn new(v: usize) -> (r: StatisticsRunExperiment)
        requires
            v < usize::MAX,
        ensures
            r.states@.len() == v + 1,
            r.is_cleared(),
            r.durations_ok(),
            r.total_is_sum(),
    {
        let mut states: Vec<MacrostateRaw> = Vec::new();
        let mut i: usize = 0;
        while i < v + 1
            invariant
                v < usize::MAX,
                i <= v + 1,
                states@.len() == i,
                forall|j: int|
                    0 <= j < i ==> (#[trigger] states@[j]) == (MacrostateRaw {
                        duration: 0,
                        no_out_new: 0,
                        no_out_end: 0,
                    }),
            decreases v + 1 - i,
        {
            states.push(MacrostateRaw::new());
            i += 1;
        }
        proof {
            lemma_sum_durations_zero(states@);
        }
        StatisticsRunExperiment { states, time_total: 0 }
    }

    /// Resets every accumulator; the warm-up phase is discarded this way.
    pub fn clear(&mut self)
        ensures
            final(self).states@.len() == old(self).states@.len(),
            final(self).is_cleared(),
            final(self).durations_ok(),
            final(self).total_is_sum(),
    {
        let n = self.states.len();
        let mut i: usize = 0;
        while i < n
            invariant
                i <= n,
                self.states@.len() == n,
                self.time_total == old(self).time_total,
                forall|j: int|
                    0 <= j < i ==> (#[trigger] self.states@[j]) == (MacrostateRaw {
                        duration: 0,
                        no_out_new: 0,
                        no_out_end: 0,
                    }),
            decreases n - i,
        {
            self.states.set(i, MacrostateRaw { duration: 0, no_out_new: 0, no_out_end: 0 });
            i += 1;
        }
        self.time_total = 0;
        proof {
            lemma_sum_durations_zero(self.states@);
        }
    }

    /// Records one event: `time` micro-units were spent at `old_state`, and
    /// the transition kind decides which outbound counter steps.
    pub fn update(&mut self, event_type: EventType, old_state: usize, _new_state: usize, time: u64)
        requires
            old_state < old(self).states@.len(),
            old(self).time_total + time <= TIME_LIMIT,
            old(self).states@[old_state as int].no_out_new < u64::MAX,
            old(self).states@[old_state as int].no_out_end < u64::MAX,
            old(self).durations_ok(),
        ensures
            spec_stats_updated(*old(self), *final(self), event_type, old_state as int, time as int),
            final(self).states@.len() == old(self).states@.len(),
            final(self).durations_ok(),
            final(self).time_total <= TIME_LIMIT,
            old(self).total_is_sum() ==> final(self).total_is_sum(),
    {
        self.time_total = self.time_total + (time as u128);
        let m = self.states[old_state];
        let updated = match event_type {
            EventType::NewCall => MacrostateRaw {
                duration: m.duration + (time as u128),
                no_out_new: m.no_out_new + 1,
                no_out_end: m.no_out_end,
            },
            EventType::LostCall => MacrostateRaw {
                duration: m.duration + (time as u128),
                no_out_new: m.no_out_new + 1,
                no_out_end: m.no_out_end,
            },
            EventType::EndCall => MacrostateRaw {
                duration: m.duration + (time as u128),
                no_out_new: m.no_out_new,
                no_out_end: m.no_out_end + 1,
            },
        };
        self.states.set(old_state, updated);
        proof {
            lemma_sum_durations_update(old(self).states@, old_state as int, updated);
        }
    }
}

impl Macrostate {
    /// A zeroed summary.
    pub fn new() -> (r: Macrostate)
        ensures
            r.p == 0,
            r.out_new == 0,
            r.out_end == 0,
    {
        Macrostate { p: 0, out_new: 0, out_end: 0 }
    }

    /// Every metric respects the cap.
    pub open spec fn wf(self) -> bool {
        &&& self.p <= RATE_CAP
        &&& self.out_new <= RATE_CAP
        &&& self.out_end <= RATE_CAP
    }
}

impl StatisticsFinalized {
    /// Shape and bounds the aggregation relies on: one summary per level of
    /// a capacity-`v` pool, all metrics capped.
    pub open spec fn wf(self) -> bool {
        &&& self.states@.len() == self.v + 1
        &&& forall|i: int| 0 <= i < self.states@.len() ==> (#[trigger] self.states@[i]).wf()
        &&& self.no_of_events <= RATE_CAP
    }
}

} // verus!
