use vstd::prelude::*;
use crate::config::{Config, EvolveTemplate, FitnessOrdering};

verus! {

/// The configuration was incomplete or malformed; the message says how.
#[derive(Debug, Clone, Eq, PartialEq)]
pub struct TryFromBuilderError(pub &'static str);

/// Builder for a meta-search [`Config`]: the opaque inner-optimizer template,
/// the trial count, the quality/time conversion factor, and one candidate
/// list per search dimension. The three limit dimensions default to the
/// single candidate "no limit"; the other lists start empty and must be
/// filled before `build`.
pub struct Builder<T, M, S, C, E> {
    pub evolve_builder: Option<T>,
    pub evolve_fitness_to_micro_second_factor: isize,
    pub rounds: usize,
    pub target_population_sizes: Vec<usize>,
    pub max_stale_generations_options: Vec<Option<usize>>,
    pub max_chromosome_age_options: Vec<Option<usize>>,
    pub target_fitness_score_options: Vec<Option<isize>>,
    pub mutates: Vec<M>,
    pub crossovers: Vec<S>,
    pub competes: Vec<C>,
    pub extensions: Vec<E>,
}

impl<T, M, S, C, E> Builder<T, M, S, C, E> {
    /// The validity of everything the builder can check without looking
    /// inside the template.
    pub open spec fn plain_valid(self) -> bool {
        &&& self.rounds >= 1
        &&& self.evolve_fitness_to_micro_second_factor >= 1
        &&& self.target_population_sizes@.len() >= 1
        &&& self.max_stale_generations_options@.len() >= 1
        &&& self.max_chromosome_age_options@.len() >= 1
        &&& self.target_fitness_score_options@.len() >= 1
        &&& self.mutates@.len() >= 1
        &&& self.crossovers@.len() >= 1
        &&& self.competes@.len() >= 1
        &&& self.extensions@.len() >= 1
        &&& self.space_size() <= u128::MAX
    }

    /// The space size the finished configuration will have.
    pub open spec fn space_size(self) -> int {
        (self.target_population_sizes@.len() as int) * (
        self.max_stale_generations_options@.len() as int) * (
        self.max_chromosome_age_options@.len() as int) * (
        self.target_fitness_score_options@.len() as int) * (self.mutates@.len() as int) * (
        self.crossovers@.len() as int) * (self.competes@.len() as int) * (
        self.extensions@.len() as int)
    }

    pub open spec fn is_default(self) -> bool {
        &&& self.evolve_builder is None
        &&& self.evolve_fitness_to_micro_second_factor == 1_000_000
        &&& self.rounds == 0
        &&& self.target_population_sizes@ =~= Seq::<usize>::empty()
        &&& self.max_stale_generations_options@ =~= seq![Option::<usize>::None]
        &&& self.max_chromosome_age_options@ =~= seq![Option::<usize>::None]
        &&& self.target_fitness_score_options@ =~= seq![Option::<isize>::None]
        &&& self.mutates@ =~= Seq::<M>::empty()
        &&& self.crossovers@ =~= Seq::<S>::empty()
        &&& self.competes@ =~= Seq::<C>::empty()
        &&& self.extensions@ =~= Seq::<E>::empty()
    }

    pub fn new() -> (r: Self)
        ensures
            r.is_default(),
    {
        Self::default()
    }

    pub fn with_evolve_builder(self, evolve_builder: T) -> (r: Self)
        ensures
            r == (Builder { evolve_builder: Some(evolve_builder), ..self }),
    {
        let mut s = self;
        s.evolve_builder = Some(evolve_builder);
        s
    }

    pub fn with_rounds(self, rounds: usize) -> (r: Self)
        ensures
            r == (Builder { rounds, ..self }),
    {
        let mut s = self;
        s.rounds = rounds;
        s
    }

    pub fn with_evolve_fitness_to_micro_second_factor(
        self,
        evolve_fitness_to_micro_second_factor: isize,
    ) -> (r: Self)
        ensures
            r == (Builder { evolve_fitness_to_micro_second_factor, ..self }),
    {
        let mut s = self;
        s.evolve_fitness_to_micro_second_factor = evolve_fitness_to_micro_second_factor;
        s
    }

    pub fn with_target_population_sizes(self, target_population_sizes: Vec<usize>) -> (r: Self)
        ensures
            r == (Builder { target_population_sizes, ..self }),
    {
        let mut s = self;
        s.target_population_sizes = target_population_sizes;
        s
    }

    pub fn with_max_stale_generations_options(
        self,
        max_stale_generations_options: Vec<Option<usize>>,
    ) -> (r: Self)
        ensures
            r == (Builder { max_stale_generations_options, ..self }),
    {
        let mut s = self;
        s.max_stale_generations_options = max_stale_generations_options;
        s
    }

    pub fn with_max_chromosome_age_options(
        self,
        max_chromosome_age_options: Vec<Option<usize>>,
    ) -> (r: Self)
        ensures
            r == (Builder { max_chromosome_age_options, ..self }),
    {
        let mut s = self;
        s.max_chromosome_age_options = max_chromosome_age_options;
        s
    }

    pub fn with_target_fitness_score_options(
        self,
        target_fitness_score_options: Vec<Option<isize>>,
    ) -> (r: Self)
        ensures
            r == (Builder { target_fitness_score_options, ..self }),
    {
        let mut s = self;
        s.target_fitness_score_options = target_fitness_score_options;
        s
    }

    pub fn with_mutates(self, mutates: Vec<M>) -> (r: Self)
        ensures
            r == (Builder { mutates, ..self }),
    {
        let mut s = self;
        s.mutates = mutates;
        s
    }

    pub fn with_crossovers(self, crossovers: Vec<S>) -> (r: Self)
        ensures
            r == (Builder { crossovers, ..self }),
    {
        let mut s = self;
        s.crossovers = crossovers;
        s
    }

    pub fn with_competes(self, competes: Vec<C>) -> (r: Self)
        ensures
            r == (Builder { competes, ..self }),
    {
        let mut s = self;
        s.competes = competes;
        s
    }

    pub fn with_extensions(self, extensions: Vec<E>) -> (r: Self)
        ensures
            r == (Builder { extensions, ..self }),
    {
        let mut s = self;
        s.extensions = extensions;
        s
    }
}

impl<T: EvolveTemplate, M, S, C, E> Builder<T, M, S, C, E> {
    /// Validates eagerly and produces the configuration. Fails on a missing
    /// or non-runnable template, zero rounds, a conversion factor below one,
    /// an empty candidate list, or a space size beyond the machine limit.
    pub fn build(self) -> (r: Result<Config<T, M, S, C, E>, TryFromBuilderError>)
        ensures
            r is Ok ==> self.plain_valid() && self.evolve_builder is Some,
            !(self.plain_valid() && self.evolve_builder is Some) ==> r is Err,
            r matches Ok(c) ==> {
                &&& c.wf()
                &&& c.rounds == self.rounds
                &&& c.evolve_fitness_to_micro_second_factor
                    == self.evolve_fitness_to_micro_second_factor
                &&& c.target_population_sizes@ == self.target_population_sizes@
                &&& c.max_stale_generations_options@ == self.max_stale_generations_options@
                &&& c.max_chromosome_age_options@ == self.max_chromosome_age_options@
                &&& c.target_fitness_score_options@ == self.target_fitness_score_options@
                &&& c.mutates@ == self.mutates@
                &&& c.crossovers@ == self.crossovers@
                &&& c.competes@ == self.competes@
                &&& c.extensions@ == self.extensions@
                &&& c.evolve_builder == self.evolve_builder->0
                &&& c.space_size() == self.space_size()
            },
    {
        if self.rounds < 1 {
            return Err(TryFromBuilderError("requires at least 1 round"));
        }
        if self.evolve_fitness_to_micro_second_factor < 1 {
            return Err(
                TryFromBuilderError("requires a fitness-to-microsecond factor of at least 1"),
            );
        }
        if self.target_population_sizes.len() == 0 {
            return Err(TryFromBuilderError("requires at least one target_population_size"));
        }
        if self.max_stale_generations_options.len() == 0 {
            return Err(TryFromBuilderError("requires at least one max_stale_generations option"));
        }
        if self.max_chromosome_age_options.len() == 0 {
            return Err(TryFromBuilderError("requires at least one max_chromosome_age option"));
        }
        if self.target_fitness_score_options.len() == 0 {
            return Err(TryFromBuilderError("requires at least one target_fitness_score option"));
        }
        if self.mutates.len() == 0 {
            return Err(TryFromBuilderError("requires at least one mutate"));
        }
        if self.crossovers.len() == 0 {
            return Err(TryFromBuilderError("requires at least one crossover"));
        }
        if self.competes.len() == 0 {
            return Err(TryFromBuilderError("requires at least one compete"));
        }
        if self.extensions.len() == 0 {
            return Err(TryFromBuilderError("requires at least one extension"));
        }
        let evolve_builder = match self.evolve_builder {
            Some(evolve_builder) => evolve_builder,
            None => {
                return Err(TryFromBuilderError("requires an evolve_builder"));
            },
        };
        if !evolve_builder.is_runnable() {
            return Err(TryFromBuilderError("evolve_builder is not runnable"));
        }
        let fitness_ordering = evolve_builder.fitness_ordering();
        let p1 = match (self.target_population_sizes.len() as u128).checked_mul(
            self.max_stale_generations_options.len() as u128,
        ) {
            Some(p) => p,
            None => {
                return Err(TryFromBuilderError("search space size overflows"));
            },
        };
        let p2 = match p1.checked_mul(self.max_chromosome_age_options.len() as u128) {
            Some(p) => p,
            None => {
                return Err(TryFromBuilderError("search space size overflows"));
            },
        };
        let p3 = match p2.checked_mul(self.target_fitness_score_options.len() as u128) {
            Some(p) => p,
            None => {
                return Err(TryFromBuilderError("search space size overflows"));
            },
        };
        let p4 = match p3.checked_mul(self.mutates.len() as u128) {
            Some(p) => p,
            None => {
                return Err(TryFromBuilderError("search space size overflows"));
            },
        };
        let p5 = match p4.checked_mul(self.crossovers.len() as u128) {
            Some(p) => p,
            None => {
                return Err(TryFromBuilderError("search space size overflows"));
            },
        };
        let p6 = match p5.checked_mul(self.competes.len() as u128) {
            Some(p) => p,
            None => {
                return Err(TryFromBuilderError("search space size overflows"));
            },
        };
        let search_space_size = match p6.checked_mul(self.extensions.len() as u128) {
            Some(p) => p,
            None => {
                return Err(TryFromBuilderError("search space size overflows"));
            },
        };
        Ok(
            Config {
                evolve_builder,
                evolve_fitness_to_micro_second_factor: self.evolve_fitness_to_micro_second_factor,
                rounds: self.rounds,
                fitness_ordering,
                search_space_size,
                target_population_sizes: self.target_population_sizes,
                max_stale_generations_options: self.max_stale_generations_options,
                max_chromosome_age_options: self.max_chromosome_age_options,
                target_fitness_score_options: self.target_fitness_score_options,
                mutates: self.mutates,
                crossovers: self.crossovers,
                competes: self.competes,
                extensions: self.extensions,
            },
        )
    }
}

impl<T, M, S, C, E> Default for Builder<T, M, S, C, E> {
    /// The empty builder: a conversion factor of one million (fitness units
    /// per second), no rounds yet, the three limit dimensions defaulting to
    /// the single candidate "no limit", and every other list empty.
    fn default() -> (r: Self)
        ensures
            r.is_default(),
    {
        let mut max_stale_generations_options: Vec<Option<usize>> = Vec::new();
        max_stale_generations_options.push(None);
        let mut max_chromosome_age_options: Vec<Option<usize>> = Vec::new();
        max_chromosome_age_options.push(None);
        let mut target_fitness_score_options: Vec<Option<isize>> = Vec::new();
        target_fitness_score_options.push(None);
        Builder {
            evolve_builder: None,
            evolve_fitness_to_micro_second_factor: 1_000_000,
            rounds: 0,
            target_population_sizes: Vec::new(),
            max_stale_generations_options,
            max_chromosome_age_options,
            target_fitness_score_options,
            mutates: Vec::new(),
            crossovers: Vec::new(),
            competes: Vec::new(),
            extensions: Vec::new(),
        }
    }
}

} // verus!
