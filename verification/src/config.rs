use vstd::prelude::*;
use crate::math::lemma_prod_ge_one;

pub mod builder;

pub use builder::Builder as ConfigBuilder;
pub use builder::TryFromBuilderError as TryFromConfigBuilderError;

verus! {

/// The caller's declared preference when comparing fitness values.
#[derive(Clone, Copy, Debug, PartialEq, Eq, Structural)]
pub enum FitnessOrdering {
    Maximize,
    Minimize,
}

/// What the meta search needs from the inner optimizer template: whether it
/// is structurally complete (a fitness function and a genotype are attached),
/// and the fitness ordering it was built with. The template itself stays
/// opaque; the adapter around the inner optimizer library implements this.
pub trait EvolveTemplate {
    fn is_runnable(&self) -> bool;

    fn fitness_ordering(&self) -> FitnessOrdering;
}

/// One selection of a candidate from each of the eight search dimensions,
/// addressed by index into the corresponding candidate list.
#[derive(Clone, Copy, Debug, PartialEq, Eq, Structural)]
pub struct ConfigPoint {
    pub population_index: usize,
    pub stale_index: usize,
    pub age_index: usize,
    pub target_index: usize,
    pub mutate_index: usize,
    pub crossover_index: usize,
    pub compete_index: usize,
    pub extension_index: usize,
}

/// The fully materialized inner-optimizer configuration for one point:
/// the four plain overrides by value, the four operator choices by index
/// into the configuration's operator lists.
#[derive(Clone, Copy, Debug, PartialEq, Eq)]
pub struct EvolveSettings {
    pub target_population_size: usize,
    pub max_stale_generations: Option<usize>,
    pub max_chromosome_age: Option<usize>,
    pub target_fitness_score: Option<isize>,
    pub mutate_index: usize,
    pub crossover_index: usize,
    pub compete_index: usize,
    pub extension_index: usize,
}

/// The enumerable combinatorial space: one length per dimension, and the
/// total number of configuration points (the product of all lengths).
pub struct SearchSpace {
    pub dimension_sizes: Vec<usize>,
    pub size: u128,
}

impl SearchSpace {
    pub fn size(&self) -> (r: u128)
        ensures
            r == self.size,
    {
        self.size
    }
}

/// A validated meta-search configuration: the opaque inner-optimizer
/// template, the trial count and quality/time conversion factor, and the
/// eight candidate lists (all non-empty).
pub struct Config<T, M, S, C, E> {
    pub evolve_builder: T,
    pub evolve_fitness_to_micro_second_factor: isize,
    pub rounds: usize,
    pub fitness_ordering: FitnessOrdering,
    pub search_space_size: u128,
    pub target_population_sizes: Vec<usize>,
    pub max_stale_generations_options: Vec<Option<usize>>,
    pub max_chromosome_age_options: Vec<Option<usize>>,
    pub target_fitness_score_options: Vec<Option<isize>>,
    pub mutates: Vec<M>,
    pub crossovers: Vec<S>,
    pub competes: Vec<C>,
    pub extensions: Vec<E>,
}

impl<T, M, S, C, E> Config<T, M, S, C, E> {
    /// The eight dimension lengths, in enumeration order.
    pub open spec fn dim_lens(self) -> Seq<int> {
        seq![
            self.target_population_sizes@.len() as int,
            self.max_stale_generations_options@.len() as int,
            self.max_chromosome_age_options@.len() as int,
            self.target_fitness_score_options@.len() as int,
            self.mutates@.len() as int,
            self.crossovers@.len() as int,
            self.competes@.len() as int,
            self.extensions@.len() as int,
        ]
    }

    /// The number of configuration points: the product of all dimension lengths.
    pub open spec fn space_size(self) -> int {
        let l = self.dim_lens();
        l[0] * l[1] * l[2] * l[3] * l[4] * l[5] * l[6] * l[7]
    }

    /// Well-formedness: at least one trial per point, a usable conversion
    /// factor, every dimension non-empty, and the cached space size exact
    /// (which also keeps the product within `u128`).
    pub open spec fn wf(self) -> bool {
        &&& self.rounds >= 1
        &&& self.evolve_fitness_to_micro_second_factor >= 1
        &&& self.target_population_sizes@.len() >= 1
        &&& self.max_stale_generations_options@.len() >= 1
        &&& self.max_chromosome_age_options@.len() >= 1
        &&& self.target_fitness_score_options@.len() >= 1
        &&& self.mutates@.len() >= 1
        &&& self.crossovers@.len() >= 1
        &&& self.competes@.len() >= 1
        &&& self.extensions@.len() >= 1
        &&& self.search_space_size as int == self.space_size()
    }

    /// A point is valid when each index addresses its candidate list.
    pub open spec fn point_wf(self, p: ConfigPoint) -> bool {
        &&& p.population_index < self.target_population_sizes@.len()
        &&& p.stale_index < self.max_stale_generations_options@.len()
        &&& p.age_index < self.max_chromosome_age_options@.len()
        &&& p.target_index < self.target_fitness_score_options@.len()
        &&& p.mutate_index < self.mutates@.len()
        &&& p.crossover_index < self.crossovers@.len()
        &&& p.compete_index < self.competes@.len()
        &&& p.extension_index < self.extensions@.len()
    }

    /// The settings a point materializes to: a pure function of the
    /// configuration and the point.
    pub open spec fn materialize_spec(self, p: ConfigPoint) -> EvolveSettings {
        EvolveSettings {
            target_population_size: self.target_population_sizes@[p.population_index as int],
            max_stale_generations: self.max_stale_generations_options@[p.stale_index as int],
            max_chromosome_age: self.max_chromosome_age_options@[p.age_index as int],
            target_fitness_score: self.target_fitness_score_options@[p.target_index as int],
            mutate_index: p.mutate_index,
            crossover_index: p.crossover_index,
            compete_index: p.compete_index,
            extension_index: p.extension_index,
        }
    }

    /// The point at position `i` of the enumeration: mixed-radix decoding
    /// with the last dimension varying fastest.
    pub open spec fn point_at(self, i: int) -> ConfigPoint {
        let l = self.dim_lens();
        let p7 = i % l[7];
        let q7 = i / l[7];
        let p6 = q7 % l[6];
        let q6 = q7 / l[6];
        let p5 = q6 % l[5];
        let q5 = q6 / l[5];
        let p4 = q5 % l[4];
        let q4 = q5 / l[4];
        let p3 = q4 % l[3];
        let q3 = q4 / l[3];
        let p2 = q3 % l[2];
        let q2 = q3 / l[2];
        let p1 = q2 % l[1];
        let q1 = q2 / l[1];
        let p0 = q1 % l[0];
        ConfigPoint {
            population_index: p0 as usize,
            stale_index: p1 as usize,
            age_index: p2 as usize,
            target_index: p3 as usize,
            mutate_index: p4 as usize,
            crossover_index: p5 as usize,
            compete_index: p6 as usize,
            extension_index: p7 as usize,
        }
    }

    /// A well-formed configuration has at least one point.
    pub proof fn lemma_space_size_pos(self)
        requires
            self.wf(),
        ensures
            self.space_size() >= 1,
    {
        let l = self.dim_lens();
        lemma_prod_ge_one(l[0], l[1]);
        lemma_prod_ge_one(l[0] * l[1], l[2]);
        lemma_prod_ge_one(l[0] * l[1] * l[2], l[3]);
        lemma_prod_ge_one(l[0] * l[1] * l[2] * l[3], l[4]);
        lemma_prod_ge_one(l[0] * l[1] * l[2] * l[3] * l[4], l[5]);
        lemma_prod_ge_one(l[0] * l[1] * l[2] * l[3] * l[4] * l[5], l[6]);
        lemma_prod_ge_one(l[0] * l[1] * l[2] * l[3] * l[4] * l[5] * l[6], l[7]);
    }

    /// The enumerable space: dimension lengths and the total point count.
    pub fn search_space(&self) -> (r: SearchSpace)
        requires
            self.wf(),
        ensures
            r.size as int == self.space_size(),
            r.dimension_sizes@.len() == 8,
            forall|k: int|
                0 <= k < 8 ==> #[trigger] r.dimension_sizes@[k] as int == self.dim_lens()[k],
    {
        let mut dimension_sizes: Vec<usize> = Vec::new();
        dimension_sizes.push(self.target_population_sizes.len());
        dimension_sizes.push(self.max_stale_generations_options.len());
        dimension_sizes.push(self.max_chromosome_age_options.len());
        dimension_sizes.push(self.target_fitness_score_options.len());
        dimension_sizes.push(self.mutates.len());
        dimension_sizes.push(self.crossovers.len());
        dimension_sizes.push(self.competes.len());
        dimension_sizes.push(self.extensions.len());
        SearchSpace { dimension_sizes, size: self.search_space_size }
    }

    /// Materializes one point into concrete inner-optimizer settings;
    /// deterministic by construction.
    pub fn materialize(&self, point: &ConfigPoint) -> (r: EvolveSettings)
        requires
            self.point_wf(*point),
        ensures
            r == self.materialize_spec(*point),
    {
        EvolveSettings {
            target_population_size: self.target_population_sizes[point.population_index],
            max_stale_generations: self.max_stale_generations_options[point.stale_index],
            max_chromosome_age: self.max_chromosome_age_options[point.age_index],
            target_fitness_score: self.target_fitness_score_options[point.target_index],
            mutate_index: point.mutate_index,
            crossover_index: point.crossover_index,
            compete_index: point.compete_index,
            extension_index: point.extension_index,
        }
    }

    /// Decodes the enumeration position `i` into its configuration point.
    pub fn decode_point(&self, i: u128) -> (r: ConfigPoint)
        requires
            self.wf(),
        ensures
            r == self.point_at(i as int),
            self.point_wf(r),
    {
        let l7 = self.extensions.len() as u128;
        let l6 = self.competes.len() as u128;
        let l5 = self.crossovers.len() as u128;
        let l4 = self.mutates.len() as u128;
        let l3 = self.target_fitness_score_options.len() as u128;
        let l2 = self.max_chromosome_age_options.len() as u128;
        let l1 = self.max_stale_generations_options.len() as u128;
        let l0 = self.target_population_sizes.len() as u128;
        let p7 = i % l7;
        let q7 = i / l7;
        let p6 = q7 % l6;
        let q6 = q7 / l6;
        let p5 = q6 % l5;
        let q5 = q6 / l5;
        let p4 = q5 % l4;
        let q4 = q5 / l4;
        let p3 = q4 % l3;
        let q3 = q4 / l3;
        let p2 = q3 % l2;
        let q2 = q3 / l2;
        let p1 = q2 % l1;
        let q1 = q2 / l1;
        let p0 = q1 % l0;
        ConfigPoint {
            population_index: p0 as usize,
            stale_index: p1 as usize,
            age_index: p2 as usize,
            target_index: p3 as usize,
            mutate_index: p4 as usize,
            crossover_index: p5 as usize,
            compete_index: p6 as usize,
            extension_index: p7 as usize,
        }
    }

    /// Two equal points always materialize to equal settings: materialization
    /// is a pure, deterministic function of the configuration and the point.
    pub proof fn lemma_materialize_deterministic(self, p: ConfigPoint, q: ConfigPoint)
        requires
            p == q,
        ensures
            self.materialize_spec(p) == self.materialize_spec(q),
    {
    }
}

} // verus!
