use vstd::prelude::*;
use crate::config::{Config, ConfigPoint, EvolveSettings, FitnessOrdering};
use crate::math::{int_sum, lemma_floor_div_bound, lemma_int_sum_nonneg, lemma_round_div_range};
use crate::stats::{fitness_mean_spec, fitness_present_count, fitness_sum, micros_view, Stats};

verus! {

/// The meta-fitness assigned to a configuration point that produced no
/// feasible solution at all, or whose materialized configuration was itself
/// invalid: strictly below every achievable score, so such a point can win
/// only when every point fails alike.
pub const WORST_META_FITNESS: i128 = i128::MIN;

/// Saturation bound for the time penalty, so a score always fits its type
/// and stays strictly above [`WORST_META_FITNESS`].
pub const PENALTY_CAP: i128 = 9_223_372_036_854_775_807;

/// What one execution of the inner optimizer reports back: the elapsed wall
/// time in microseconds, the generation at which the best solution was found,
/// and the best fitness value, absent when no feasible solution was found.
pub struct TrialOutcome {
    pub duration_micros: u64,
    pub best_generation: usize,
    pub best_fitness_score: Option<isize>,
}

/// The materialized configuration was invalid for the inner optimizer;
/// the message says how.
#[derive(Debug, Clone, Eq, PartialEq)]
pub struct TrialError(pub &'static str);

/// The capability the meta search needs from the inner optimizer: run one
/// independent stochastic trial under the given template, operator choices
/// and settings. An `Err` means the materialized configuration could not even
/// be constructed; a trial that merely finds no solution reports `Ok` with an
/// absent fitness value.
pub trait InnerRunner<T, M, S, C, E> {
    fn run_trial(
        &mut self,
        template: &T,
        mutate: &M,
        crossover: &S,
        compete: &C,
        extension: &E,
        settings: &EvolveSettings,
    ) -> Result<TrialOutcome, TrialError>;
}

/// Quality component of the meta fitness: the rounded mean of the present
/// fitness values, oriented so that larger is always better.
pub open spec fn oriented_quality(fits: Seq<Option<isize>>, ordering: FitnessOrdering) -> int {
    match ordering {
        FitnessOrdering::Maximize => fitness_mean_spec(fits),
        FitnessOrdering::Minimize => -fitness_mean_spec(fits),
    }
}

/// Time penalty: total trial duration in microseconds divided by the
/// quality/time conversion factor, saturated at [`PENALTY_CAP`].
pub open spec fn duration_penalty(durs: Seq<u64>, factor: int) -> int {
    let p = int_sum(micros_view(durs)) / factor;
    if p > PENALTY_CAP as int {
        PENALTY_CAP as int
    } else {
        p
    }
}

/// The meta fitness of one evaluated point: the worst possible value when no
/// trial produced a fitness value, otherwise oriented quality minus the time
/// penalty. Monotone in quality for fixed time, antitone in time for fixed
/// quality, and a total order (plain integer comparison).
pub open spec fn meta_score_spec(
    durs: Seq<u64>,
    fits: Seq<Option<isize>>,
    ordering: FitnessOrdering,
    factor: int,
) -> int {
    if fitness_present_count(fits) == 0 {
        WORST_META_FITNESS as int
    } else {
        oriented_quality(fits, ordering) - duration_penalty(durs, factor)
    }
}

/// The rounded fitness mean stays within the `isize` range.
pub proof fn lemma_fitness_mean_range(fits: Seq<Option<isize>>)
    ensures
        isize::MIN as int <= fitness_mean_spec(fits) <= isize::MAX as int,
{
    let c = fitness_present_count(fits);
    if c != 0 {
        crate::stats::lemma_fitness_sum_bounds(fits);
        lemma_round_div_range(fitness_sum(fits), c, isize::MIN as int, isize::MAX as int);
    }
}

/// The time penalty lies between zero and [`PENALTY_CAP`].
pub proof fn lemma_duration_penalty_range(durs: Seq<u64>, factor: int)
    requires
        factor >= 1,
    ensures
        0 <= duration_penalty(durs, factor) <= PENALTY_CAP as int,
{
    let v = micros_view(durs);
    lemma_int_sum_nonneg(v);
    assert(int_sum(v) <= factor * int_sum(v)) by (nonlinear_arith)
        requires factor >= 1, int_sum(v) >= 0;
    lemma_floor_div_bound(int_sum(v), factor, int_sum(v));
}

/// Any point with at least one present fitness value scores strictly above
/// the worst sentinel, whatever its durations: a point that never found a
/// solution can never beat one that did, except by the tie rule when all
/// points carry the sentinel.
pub proof fn lemma_meta_score_above_worst(
    durs: Seq<u64>,
    fits: Seq<Option<isize>>,
    ordering: FitnessOrdering,
    factor: int,
)
    requires
        factor >= 1,
        fitness_present_count(fits) != 0,
    ensures
        meta_score_spec(durs, fits, ordering, factor) > WORST_META_FITNESS as int,
        meta_score_spec(durs, fits, ordering, factor) >= isize::MIN as int - PENALTY_CAP as int,
        meta_score_spec(durs, fits, ordering, factor) <= -(isize::MIN as int),
{
    lemma_fitness_mean_range(fits);
    lemma_duration_penalty_range(durs, factor);
}

/// The meta fitness is a total order: of two scores, either they are equal
/// or exactly one is preferred, never both and never neither.
pub proof fn lemma_meta_fitness_total_order(a: i128, b: i128)
    ensures
        a < b || a == b || b < a,
        a != b ==> ((a < b) != (b < a)),
        !(a < b && b < a),
{
}

/// For fixed durations, a better oriented quality gives a better score.
pub proof fn lemma_meta_score_monotone_quality(
    durs: Seq<u64>,
    fits1: Seq<Option<isize>>,
    fits2: Seq<Option<isize>>,
    ordering: FitnessOrdering,
    factor: int,
)
    requires
        factor >= 1,
        fitness_present_count(fits1) != 0,
        fitness_present_count(fits2) != 0,
        oriented_quality(fits1, ordering) <= oriented_quality(fits2, ordering),
    ensures
        meta_score_spec(durs, fits1, ordering, factor) <= meta_score_spec(
            durs,
            fits2,
            ordering,
            factor,
        ),
{
}

/// For fixed fitness outcomes, less total time never gives a worse score.
pub proof fn lemma_meta_score_monotone_speed(
    durs1: Seq<u64>,
    durs2: Seq<u64>,
    fits: Seq<Option<isize>>,
    ordering: FitnessOrdering,
    factor: int,
)
    requires
        factor >= 1,
        fitness_present_count(fits) != 0,
        int_sum(micros_view(durs1)) <= int_sum(micros_view(durs2)),
    ensures
        meta_score_spec(durs1, fits, ordering, factor) >= meta_score_spec(
            durs2,
            fits,
            ordering,
            factor,
        ),
{
    vstd::arithmetic::div_mod::lemma_div_is_ordered(
        int_sum(micros_view(durs1)),
        int_sum(micros_view(durs2)),
        factor,
    );
}

/// Computes the meta fitness of the recorded trials.
pub fn meta_score(stats: &Stats, ordering: FitnessOrdering, factor: isize) -> (r: i128)
    requires
        factor >= 1,
    ensures
        r as int == meta_score_spec(
            stats.durations@,
            stats.best_fitness_scores@,
            ordering,
            factor as int,
        ),
{
    let c = stats.best_fitness_score_count();
    if c == 0 {
        return WORST_META_FITNESS;
    }
    let mean = stats.best_fitness_score_mean();
    let oriented: i128 = match ordering {
        FitnessOrdering::Maximize => mean as i128,
        FitnessOrdering::Minimize => -(mean as i128),
    };
    let dsum = stats.duration_sum_micros();
    let p0 = dsum / (factor as u128);
    let penalty: i128 = if p0 > (PENALTY_CAP as u128) {
        PENALTY_CAP
    } else {
        p0 as i128
    };
    proof {
        lemma_duration_penalty_range(stats.durations@, factor as int);
        lemma_fitness_mean_range(stats.best_fitness_scores@);
    }
    oriented - penalty
}

/// Per-point meta-fitness evaluator: runs the inner optimizer `rounds` times
/// for one configuration point, aggregates the outcomes in a fresh [`Stats`],
/// and reduces them to one score.
pub struct Fitness<'a, T, M, S, C, E> {
    pub config: &'a Config<T, M, S, C, E>,
}

/// The result of evaluating one configuration point: the per-trial record,
/// the meta fitness, and whether evaluation stopped on a structural failure
/// of the materialized configuration.
pub struct Evaluation {
    pub stats: Stats,
    pub score: i128,
    pub structural_failure: bool,
}

impl Evaluation {
    /// The score an evaluation is obliged to carry, given its outcome data.
    pub open spec fn score_ok(self, ordering: FitnessOrdering, factor: int, rounds: int) -> bool {
        if self.structural_failure {
            self.score == WORST_META_FITNESS
        } else {
            &&& self.score as int == meta_score_spec(
                self.stats.durations@,
                self.stats.best_fitness_scores@,
                ordering,
                factor,
            )
            &&& self.stats.durations@.len() == rounds
            &&& self.stats.best_generations@.len() == rounds
            &&& self.stats.best_fitness_scores@.len() == rounds
        }
    }
}

impl<'a, T, M, S, C, E> Fitness<'a, T, M, S, C, E> {
    /// Runs `rounds` independent trials for `point` and reduces them to a
    /// meta fitness. A structural failure of the materialized configuration
    /// aborts this point with the worst score; a trial without a solution is
    /// recorded as an absent fitness value and evaluation continues.
    pub fn evaluate_point<R: InnerRunner<T, M, S, C, E>>(
        &self,
        point: &ConfigPoint,
        runner: &mut R,
    ) -> (r: Evaluation)
        requires
            self.config.wf(),
            self.config.point_wf(*point),
        ensures
            r.score_ok(
                self.config.fitness_ordering,
                self.config.evolve_fitness_to_micro_second_factor as int,
                self.config.rounds as int,
            ),
    {
        let settings = self.config.materialize(point);
        let mutate = &self.config.mutates[point.mutate_index];
        let crossover = &self.config.crossovers[point.crossover_index];
        let compete = &self.config.competes[point.compete_index];
        let extension = &self.config.extensions[point.extension_index];
        let mut stats = Stats::new();
        let mut round: usize = 0;
        while round < self.config.rounds
            invariant
                round <= self.config.rounds,
                stats.durations@.len() == round,
                stats.best_generations@.len() == round,
                stats.best_fitness_scores@.len() == round,
            decreases self.config.rounds - round,
        {
            match runner.run_trial(
                &self.config.evolve_builder,
                mutate,
                crossover,
                compete,
                extension,
                &settings,
            ) {
                Ok(outcome) => {
                    stats.record(
                        outcome.duration_micros,
                        outcome.best_generation,
                        outcome.best_fitness_score,
                    );
                },
                Err(_) => {
                    return Evaluation {
                        stats,
                        score: WORST_META_FITNESS,
                        structural_failure: true,
                    };
                },
            }
            round = round + 1;
        }
        let score = meta_score(
            &stats,
            self.config.fitness_ordering,
            self.config.evolve_fitness_to_micro_second_factor,
        );
        Evaluation { stats, score, structural_failure: false }
    }
}

} // verus!
