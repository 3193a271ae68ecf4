use vstd::prelude::*;
use crate::config::{Config, ConfigPoint};
use crate::fitness::{meta_score_spec, Fitness, InnerRunner, WORST_META_FITNESS};
use crate::stats::Stats;

verus! {

/// The winning configuration point: its enumeration index, the point itself,
/// the per-trial record of its evaluation, and its meta fitness.
pub struct BestRecord {
    pub index: u128,
    pub point: ConfigPoint,
    pub stats: Stats,
    pub score: i128,
}

/// The obligations the best record's score carries: the worst sentinel after
/// a structural failure, otherwise exactly the meta fitness of its recorded
/// trials, with one trial per configured round.
pub open spec fn best_score_ok<T, M, S, C, E>(
    config: Config<T, M, S, C, E>,
    b: BestRecord,
    structural_b: bool,
) -> bool {
    if structural_b {
        b.score == WORST_META_FITNESS
    } else {
        &&& b.score as int == meta_score_spec(
            b.stats.durations@,
            b.stats.best_fitness_scores@,
            config.fitness_ordering,
            config.evolve_fitness_to_micro_second_factor as int,
        )
        &&& b.stats.durations@.len() == config.rounds
        &&& b.stats.best_generations@.len() == config.rounds
        &&& b.stats.best_fitness_scores@.len() == config.rounds
    }
}

/// The meta-search driver: exhaustively enumerates every configuration point
/// in index order, evaluates each, and retains the best-scoring point, ties
/// broken toward the earliest index. Results are absent until [`Self::call`]
/// has run.
pub struct Permutate<'a, T, M, S, C, E> {
    pub config: &'a Config<T, M, S, C, E>,
    pub best: Option<BestRecord>,
    pub evaluated: u128,
    pub structural_failures: Vec<u128>,
    pub scores: Ghost<Seq<int>>,
    pub structural: Ghost<Seq<bool>>,
}

impl<'a, T, M, S, C, E> Permutate<'a, T, M, S, C, E> {
    /// No point evaluated yet, no result available.
    pub open spec fn fresh(self) -> bool {
        &&& self.best is None
        &&& self.evaluated == 0
        &&& self.structural_failures@.len() == 0
        &&& self.scores@.len() == 0
        &&& self.structural@.len() == 0
    }

    /// What a completed search guarantees: every point of the space was
    /// evaluated in index order; the best record's score is the maximum of
    /// all scores; every earlier point scored strictly less (first-seen wins
    /// on ties); the best point is the decoding of its index; its score is
    /// tied to its recorded trials; and the structural failure list holds
    /// exactly the indices whose evaluation failed structurally.
    pub open spec fn result_ok(self) -> bool {
        &&& self.evaluated as int == self.config.space_size()
        &&& self.scores@.len() == self.evaluated as int
        &&& self.structural@.len() == self.evaluated as int
        &&& self.best is Some
        &&& {
            let b = self.best->0;
            &&& b.index < self.evaluated
            &&& self.scores@[b.index as int] == b.score as int
            &&& forall|j: int|
                0 <= j < self.scores@.len() ==> #[trigger] self.scores@[j] <= b.score as int
            &&& forall|j: int| 0 <= j < b.index as int ==> #[trigger] self.scores@[j] < b.score as int
            &&& b.point == self.config.point_at(b.index as int)
            &&& best_score_ok(*self.config, b, self.structural@[b.index as int])
        }
        &&& forall|j: int|
            0 <= j < self.structural@.len() ==> (#[trigger] self.structural@[j]
                <==> self.structural_failures@.contains(j as u128))
    }

    /// A point whose evaluation produced no fitness value (or failed
    /// structurally) carries the worst sentinel, so it can become the best
    /// only when every point fails alike: if any evaluated point scored
    /// above the sentinel, so does the winner.
    pub proof fn lemma_failed_points_never_win(self)
        requires
            self.result_ok(),
            exists|j: int|
                0 <= j < self.scores@.len() && #[trigger] self.scores@[j]
                    > WORST_META_FITNESS as int,
        ensures
            (self.best->0).score > WORST_META_FITNESS,
    {
        let j = choose|j: int|
            0 <= j < self.scores@.len() && #[trigger] self.scores@[j] > WORST_META_FITNESS as int;
        assert(self.scores@[j] <= (self.best->0).score as int);
    }

    pub fn new(config: &'a Config<T, M, S, C, E>) -> (r: Self)
        ensures
            r.config == config,
            r.fresh(),
    {
        Permutate {
            config,
            best: None,
            evaluated: 0,
            structural_failures: Vec::new(),
            scores: Ghost(Seq::empty()),
            structural: Ghost(Seq::empty()),
        }
    }

    /// The best record, or `None` while no result is available.
    pub fn best_record(&self) -> (r: Option<&BestRecord>)
        ensures
            match r {
                Some(b) => self.best is Some && *b == self.best->0,
                None => self.best is None,
            },
    {
        match &self.best {
            Some(b) => Some(b),
            None => None,
        }
    }

    /// Runs the exhaustive search: evaluates every configuration point in
    /// index order and keeps the best. Completed already means nothing is
    /// re-run: the value comes back unchanged.
    pub fn call<R: InnerRunner<T, M, S, C, E>>(self, runner: &mut R) -> (r: Self)
        requires
            self.config.wf(),
        ensures
            r.config == self.config,
            self.best is Some ==> r == self,
            self.best is None ==> r.result_ok(),
    {
        if self.best.is_some() {
            return self;
        }
        let fitness = Fitness { config: self.config };
        let size = self.config.search_space_size;
        let ghost mut scores: Seq<int> = Seq::empty();
        let ghost mut structural: Seq<bool> = Seq::empty();
        let mut best: Option<BestRecord> = None;
        let mut structural_failures: Vec<u128> = Vec::new();
        let mut i: u128 = 0;
        proof {
            self.config.lemma_space_size_pos();
        }
        while i < size
            invariant
                self.config.wf(),
                fitness.config == self.config,
                size == self.config.search_space_size,
                i <= size,
                scores.len() == i as int,
                structural.len() == i as int,
                (best is Some) <==> i > 0,
                best matches Some(b) ==> {
                    &&& b.index < i
                    &&& scores[b.index as int] == b.score as int
                    &&& forall|j: int| 0 <= j < i as int ==> #[trigger] scores[j] <= b.score as int
                    &&& forall|j: int|
                        0 <= j < b.index as int ==> #[trigger] scores[j] < b.score as int
                    &&& b.point == self.config.point_at(b.index as int)
                    &&& best_score_ok(*self.config, b, structural[b.index as int])
                },
                forall|j: int|
                    0 <= j < structural.len() ==> (#[trigger] structural[j]
                        <==> structural_failures@.contains(j as u128)),
                forall|k: int|
                    0 <= k < structural_failures@.len() ==> #[trigger] structural_failures@[k]
                        < i,
            decreases size - i,
        {
            let point = self.config.decode_point(i);
            let ev = fitness.evaluate_point(&point, runner);
            let ev_score = ev.score;
            let ev_structural = ev.structural_failure;
            let ghost scores_prev = scores;
            let ghost structural_prev = structural;
            let ghost sf_prev = structural_failures@;
            proof {
                scores = scores_prev.push(ev_score as int);
                structural = structural_prev.push(ev_structural);
                assert(scores[i as int] == ev_score as int);
                assert(structural[i as int] == ev_structural);
                assert(forall|j: int| 0 <= j < i as int ==> #[trigger] scores[j] == scores_prev[j]);
                assert(forall|j: int|
                    0 <= j < i as int ==> #[trigger] structural[j] == structural_prev[j]);
            }
            if ev_structural {
                structural_failures.push(i);
                proof {
                    assert(structural_failures@ =~= sf_prev.push(i));
                    assert(structural_failures@[sf_prev.len() as int] == i);
                    assert(structural_failures@.contains(i as u128));
                }
            }
            proof {
                assert forall|j: int| 0 <= j < structural.len() implies (#[trigger] structural[j]
                    <==> structural_failures@.contains(j as u128)) by {
                    let sf = structural_failures@;
                    if j < i as int {
                        if structural_prev[j] {
                            let k = choose|k: int|
                                0 <= k < sf_prev.len() && sf_prev[k] == (j as u128);
                            assert(sf[k] == j as u128);
                        }
                        if sf.contains(j as u128) {
                            let k = choose|k: int| 0 <= k < sf.len() && sf[k] == (j as u128);
                            if k < sf_prev.len() {
                                assert(sf_prev[k] == j as u128);
                                assert(sf_prev.contains(j as u128));
                            } else {
                                assert(sf[k] == i);
                                assert(false);
                            }
                        }
                    } else {
                        assert(j == i as int);
                        if !ev_structural {
                            if sf.contains(i as u128) {
                                let k = choose|k: int| 0 <= k < sf.len() && sf[k] == (i as u128);
                                assert(sf_prev[k] < i);
                                assert(false);
                            }
                        }
                    }
                }
            }
            let is_new_best = match &best {
                None => true,
                Some(b) => ev_score > b.score,
            };
            if is_new_best {
                best = Some(BestRecord { index: i, point, stats: ev.stats, score: ev_score });
            }
            i = i + 1;
            proof {
                let b = best->0;
                if is_new_best {
                    assert(b.index == i - 1);
                    assert(scores[b.index as int] == b.score as int);
                    assert(forall|j: int|
                        0 <= j < i as int ==> #[trigger] scores[j] <= b.score as int);
                } else {
                    assert(scores[i - 1 as int] == ev_score as int);
                    assert(ev_score as int <= b.score as int);
                }
            }
        }
        Permutate {
            config: self.config,
            best,
            evaluated: size,
            structural_failures,
            scores: Ghost(scores),
            structural: Ghost(structural),
        }
    }
}

} // verus!
