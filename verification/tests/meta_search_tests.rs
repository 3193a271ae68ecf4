use genetic_algorithm::crossover::{CrossoverClone, CrossoverWrapper};
use genetic_algorithm::extension::{ExtensionNoop, ExtensionWrapper};
use genetic_algorithm::fitness::placeholders::CountTrue;
use genetic_algorithm::fitness::{
    Fitness, FitnessChromosome, FitnessOrdering as GaFitnessOrdering, FitnessValue,
};
use genetic_algorithm::genotype::{BinaryGenotype, Genotype};
use genetic_algorithm::mutate::{MutateSingleGene, MutateWrapper};
use genetic_algorithm::select::{SelectElite, SelectWrapper};
use genetic_algorithm::strategy::evolve::EvolveBuilder;
use genetic_algorithm::strategy::{Strategy, StrategyReporterNoop};

use genetic_algorithm_meta::config::builder::Builder;
use genetic_algorithm_meta::config::{ConfigPoint, EvolveSettings, EvolveTemplate, FitnessOrdering};
use genetic_algorithm_meta::fitness::{
    meta_score, InnerRunner, TrialError, TrialOutcome, WORST_META_FITNESS,
};
use genetic_algorithm_meta::permutate::Permutate;
use genetic_algorithm_meta::stats::Stats;

type Mw = MutateWrapper<BinaryGenotype>;
type Cw = CrossoverWrapper<BinaryGenotype>;
type Sw = SelectWrapper<BinaryGenotype>;
type Ew = ExtensionWrapper<BinaryGenotype>;
type Eb<F> = EvolveBuilder<
    BinaryGenotype,
    Mw,
    F,
    Cw,
    Sw,
    Ew,
    StrategyReporterNoop<BinaryGenotype>,
>;

struct GaTemplate<F: Fitness<Genotype = BinaryGenotype>>(Eb<F>);

impl<F: Fitness<Genotype = BinaryGenotype>> EvolveTemplate for GaTemplate<F> {
    fn is_runnable(&self) -> bool {
        self.0.fitness.is_some() && self.0.genotype.is_some()
    }

    fn fitness_ordering(&self) -> FitnessOrdering {
        match self.0.fitness_ordering {
            GaFitnessOrdering::Maximize => FitnessOrdering::Maximize,
            GaFitnessOrdering::Minimize => FitnessOrdering::Minimize,
        }
    }
}

struct GaRunner;

impl<F: Fitness<Genotype = BinaryGenotype>> InnerRunner<GaTemplate<F>, Mw, Cw, Sw, Ew>
    for GaRunner
{
    fn run_trial(
        &mut self,
        template: &GaTemplate<F>,
        mutate: &Mw,
        crossover: &Cw,
        compete: &Sw,
        extension: &Ew,
        settings: &EvolveSettings,
    ) -> Result<TrialOutcome, TrialError> {
        let builder = template
            .0
            .clone()
            .with_target_population_size(settings.target_population_size)
            .with_max_stale_generations_option(settings.max_stale_generations)
            .with_max_chromosome_age_option(settings.max_chromosome_age)
            .with_target_fitness_score_option(settings.target_fitness_score)
            .with_mutate(mutate.clone())
            .with_crossover(crossover.clone())
            .with_select(compete.clone())
            .with_extension(extension.clone());
        let start = std::time::Instant::now();
        match builder.call() {
            Ok(evolve) => Ok(TrialOutcome {
                duration_micros: start.elapsed().as_micros() as u64,
                best_generation: evolve.best_generation(),
                best_fitness_score: evolve.best_fitness_score(),
            }),
            Err(_) => Err(TrialError("inner optimizer build failed")),
        }
    }
}

#[derive(Clone, Debug)]
struct NeverFinds;

impl Fitness for NeverFinds {
    type Genotype = BinaryGenotype;
    fn calculate_for_chromosome(
        &mut self,
        _chromosome: &FitnessChromosome<Self>,
        _genotype: &Self::Genotype,
    ) -> Option<FitnessValue> {
        None
    }
}

fn genotype(genes_size: usize) -> BinaryGenotype {
    BinaryGenotype::builder()
        .with_genes_size(genes_size)
        .build()
        .unwrap()
}

fn count_true_template(genes_size: usize) -> GaTemplate<CountTrue> {
    GaTemplate(
        EvolveBuilder::new()
            .with_genotype(genotype(genes_size))
            .with_fitness(CountTrue)
            .with_extension(ExtensionWrapper::Noop(ExtensionNoop::new())),
    )
}

fn never_finds_template(genes_size: usize) -> GaTemplate<NeverFinds> {
    GaTemplate(
        EvolveBuilder::new()
            .with_genotype(genotype(genes_size))
            .with_fitness(NeverFinds)
            .with_extension(ExtensionWrapper::Noop(ExtensionNoop::new())),
    )
}

fn one_mutate() -> Vec<Mw> {
    vec![MutateWrapper::SingleGene(MutateSingleGene::new(0.2))]
}

fn one_crossover() -> Vec<Cw> {
    vec![CrossoverWrapper::Clone(CrossoverClone::new(0.7))]
}

fn one_compete() -> Vec<Sw> {
    vec![SelectWrapper::Elite(SelectElite::new(0.5, 0.02))]
}

fn one_extension() -> Vec<Ew> {
    vec![ExtensionWrapper::Noop(ExtensionNoop::new())]
}

#[test]
fn build_rejects_zero_rounds() {
    let b: Builder<GaTemplate<CountTrue>, Mw, Cw, Sw, Ew> = Builder::new();
    let err = b.build().err().unwrap();
    assert_eq!(err.0, "requires at least 1 round");
}

#[test]
fn build_rejects_nonpositive_factor() {
    let b: Builder<GaTemplate<CountTrue>, Mw, Cw, Sw, Ew> = Builder::new()
        .with_rounds(1)
        .with_evolve_fitness_to_micro_second_factor(0);
    let err = b.build().err().unwrap();
    assert_eq!(err.0, "requires a fitness-to-microsecond factor of at least 1");
}

#[test]
fn build_rejects_empty_dimensions() {
    let b: Builder<GaTemplate<CountTrue>, Mw, Cw, Sw, Ew> = Builder::new().with_rounds(1);
    let err = b.build().err().unwrap();
    assert_eq!(err.0, "requires at least one target_population_size");

    let b: Builder<GaTemplate<CountTrue>, Mw, Cw, Sw, Ew> = Builder::new()
        .with_rounds(1)
        .with_target_population_sizes(vec![10]);
    let err = b.build().err().unwrap();
    assert_eq!(err.0, "requires at least one mutate");

    let b: Builder<GaTemplate<CountTrue>, Mw, Cw, Sw, Ew> = Builder::new()
        .with_rounds(1)
        .with_target_population_sizes(vec![10])
        .with_max_stale_generations_options(vec![])
        .with_mutates(one_mutate());
    let err = b.build().err().unwrap();
    assert_eq!(err.0, "requires at least one max_stale_generations option");

    let b: Builder<GaTemplate<CountTrue>, Mw, Cw, Sw, Ew> = Builder::new()
        .with_rounds(1)
        .with_target_population_sizes(vec![10])
        .with_max_chromosome_age_options(vec![])
        .with_mutates(one_mutate());
    let err = b.build().err().unwrap();
    assert_eq!(err.0, "requires at least one max_chromosome_age option");

    let b: Builder<GaTemplate<CountTrue>, Mw, Cw, Sw, Ew> = Builder::new()
        .with_rounds(1)
        .with_target_population_sizes(vec![10])
        .with_target_fitness_score_options(vec![])
        .with_mutates(one_mutate());
    let err = b.build().err().unwrap();
    assert_eq!(err.0, "requires at least one target_fitness_score option");

    let b: Builder<GaTemplate<CountTrue>, Mw, Cw, Sw, Ew> = Builder::new()
        .with_rounds(1)
        .with_target_population_sizes(vec![10])
        .with_mutates(one_mutate());
    let err = b.build().err().unwrap();
    assert_eq!(err.0, "requires at least one crossover");

    let b: Builder<GaTemplate<CountTrue>, Mw, Cw, Sw, Ew> = Builder::new()
        .with_rounds(1)
        .with_target_population_sizes(vec![10])
        .with_mutates(one_mutate())
        .with_crossovers(one_crossover());
    let err = b.build().err().unwrap();
    assert_eq!(err.0, "requires at least one compete");

    let b: Builder<GaTemplate<CountTrue>, Mw, Cw, Sw, Ew> = Builder::new()
        .with_rounds(1)
        .with_target_population_sizes(vec![10])
        .with_mutates(one_mutate())
        .with_crossovers(one_crossover())
        .with_competes(one_compete());
    let err = b.build().err().unwrap();
    assert_eq!(err.0, "requires at least one extension");
}

#[test]
fn build_rejects_missing_template() {
    let b: Builder<GaTemplate<CountTrue>, Mw, Cw, Sw, Ew> = Builder::new()
        .with_rounds(1)
        .with_target_population_sizes(vec![10])
        .with_mutates(one_mutate())
        .with_crossovers(one_crossover())
        .with_competes(one_compete())
        .with_extensions(one_extension());
    let err = b.build().err().unwrap();
    assert_eq!(err.0, "requires an evolve_builder");
}

#[test]
fn build_rejects_incomplete_template() {
    let template = GaTemplate::<CountTrue>(
        EvolveBuilder::new().with_extension(ExtensionWrapper::Noop(ExtensionNoop::new())),
    );
    let b: Builder<GaTemplate<CountTrue>, Mw, Cw, Sw, Ew> = Builder::new()
        .with_rounds(1)
        .with_evolve_builder(template)
        .with_target_population_sizes(vec![10])
        .with_mutates(one_mutate())
        .with_crossovers(one_crossover())
        .with_competes(one_compete())
        .with_extensions(one_extension());
    let err = b.build().err().unwrap();
    assert_eq!(err.0, "evolve_builder is not runnable");
}

#[test]
fn search_space_size_is_product_of_dimension_lengths() {
    let config = Builder::new()
        .with_rounds(1)
        .with_evolve_builder(count_true_template(6))
        .with_target_population_sizes(vec![10, 50])
        .with_mutates(vec![
            MutateWrapper::SingleGene(MutateSingleGene::<BinaryGenotype>::new(0.2)),
            MutateWrapper::SingleGene(MutateSingleGene::<BinaryGenotype>::new(0.4)),
        ])
        .with_crossovers(one_crossover())
        .with_competes(one_compete())
        .with_extensions(one_extension())
        .build()
        .unwrap();
    let space = config.search_space();
    assert_eq!(space.size(), 4);
    assert_eq!(space.dimension_sizes, vec![2, 1, 1, 1, 2, 1, 1, 1]);
}

#[test]
fn materialize_is_deterministic() {
    let config = Builder::new()
        .with_rounds(1)
        .with_evolve_builder(count_true_template(6))
        .with_target_population_sizes(vec![10, 50])
        .with_max_stale_generations_options(vec![None, Some(7)])
        .with_mutates(vec![
            MutateWrapper::SingleGene(MutateSingleGene::<BinaryGenotype>::new(0.2)),
            MutateWrapper::SingleGene(MutateSingleGene::<BinaryGenotype>::new(0.4)),
        ])
        .with_crossovers(one_crossover())
        .with_competes(one_compete())
        .with_extensions(one_extension())
        .build()
        .unwrap();
    let point = ConfigPoint {
        population_index: 1,
        stale_index: 1,
        age_index: 0,
        target_index: 0,
        mutate_index: 1,
        crossover_index: 0,
        compete_index: 0,
        extension_index: 0,
    };
    let first = config.materialize(&point);
    let second = config.materialize(&point);
    assert_eq!(first, second);
    assert_eq!(first.target_population_size, 50);
    assert_eq!(first.max_stale_generations, Some(7));
    assert_eq!(first.max_chromosome_age, None);
    assert_eq!(first.target_fitness_score, None);
    assert_eq!(first.mutate_index, 1);
}

#[test]
fn decode_point_enumerates_in_index_order() {
    let config = Builder::new()
        .with_rounds(1)
        .with_evolve_builder(count_true_template(6))
        .with_target_population_sizes(vec![10, 50])
        .with_mutates(one_mutate())
        .with_crossovers(one_crossover())
        .with_competes(one_compete())
        .with_extensions(one_extension())
        .build()
        .unwrap();
    assert_eq!(config.decode_point(0).population_index, 0);
    assert_eq!(config.decode_point(1).population_index, 1);
}

#[test]
fn scenario_two_points_without_ending_condition() {
    let config = Builder::new()
        .with_rounds(3)
        .with_evolve_builder(count_true_template(6))
        .with_target_population_sizes(vec![10, 50])
        .with_mutates(one_mutate())
        .with_crossovers(one_crossover())
        .with_competes(one_compete())
        .with_extensions(one_extension())
        .build()
        .unwrap();
    assert_eq!(config.search_space().size(), 2);
    let mut runner = GaRunner;
    let permutate = Permutate::new(&config).call(&mut runner);
    assert_eq!(permutate.evaluated, 2);
    let best = permutate.best_record().unwrap();
    assert_eq!(best.index, 0);
    assert_eq!(best.score, WORST_META_FITNESS);
    assert_eq!(permutate.structural_failures, vec![0, 1]);
}

#[test]
fn scenario_inner_optimizer_never_finds_a_solution() {
    let config = Builder::new()
        .with_rounds(2)
        .with_evolve_builder(never_finds_template(6))
        .with_target_population_sizes(vec![10])
        .with_max_stale_generations_options(vec![Some(2)])
        .with_mutates(one_mutate())
        .with_crossovers(one_crossover())
        .with_competes(one_compete())
        .with_extensions(one_extension())
        .build()
        .unwrap();
    let mut runner = GaRunner;
    let permutate = Permutate::new(&config).call(&mut runner);
    assert_eq!(permutate.evaluated, 1);
    assert!(permutate.structural_failures.is_empty());
    let best = permutate.best_record().unwrap();
    assert_eq!(best.stats.duration_count(), 2);
    assert_eq!(best.stats.best_fitness_score_count(), 0);
    assert_eq!(best.score, WORST_META_FITNESS);
}

#[test]
fn scenario_deterministic_success_has_exact_statistics() {
    let config = Builder::new()
        .with_rounds(5)
        .with_evolve_fitness_to_micro_second_factor(isize::MAX)
        .with_evolve_builder(count_true_template(6))
        .with_target_population_sizes(vec![20])
        .with_max_stale_generations_options(vec![Some(10_000)])
        .with_target_fitness_score_options(vec![Some(6)])
        .with_mutates(one_mutate())
        .with_crossovers(one_crossover())
        .with_competes(one_compete())
        .with_extensions(one_extension())
        .build()
        .unwrap();
    let mut runner = GaRunner;
    let permutate = Permutate::new(&config).call(&mut runner);
    assert_eq!(permutate.evaluated, 1);
    let best = permutate.best_record().unwrap();
    assert_eq!(best.stats.duration_count(), 5);
    assert_eq!(best.stats.best_fitness_score_count(), 5);
    assert_eq!(best.stats.best_fitness_score_mean(), 6);
    assert_eq!(best.stats.best_fitness_score_stddev(), Some(0));
    assert_eq!(best.score, 6);
}

#[test]
fn tie_break_keeps_the_earlier_point() {
    let config = Builder::new()
        .with_rounds(1)
        .with_evolve_fitness_to_micro_second_factor(isize::MAX)
        .with_evolve_builder(count_true_template(6))
        .with_target_population_sizes(vec![20, 20])
        .with_max_stale_generations_options(vec![Some(10_000)])
        .with_target_fitness_score_options(vec![Some(6)])
        .with_mutates(one_mutate())
        .with_crossovers(one_crossover())
        .with_competes(one_compete())
        .with_extensions(one_extension())
        .build()
        .unwrap();
    let mut runner = GaRunner;
    let permutate = Permutate::new(&config).call(&mut runner);
    assert_eq!(permutate.evaluated, 2);
    let best = permutate.best_record().unwrap();
    assert_eq!(best.score, 6);
    assert_eq!(best.index, 0);
    assert_eq!(best.point.population_index, 0);
}

#[test]
fn meta_score_orders_distinct_outcomes_exactly_one_way() {
    let mut low = Stats::new();
    low.record(1_000, 1, Some(3));
    let mut high = Stats::new();
    high.record(1_000, 1, Some(5));
    let a = meta_score(&low, FitnessOrdering::Maximize, isize::MAX);
    let b = meta_score(&high, FitnessOrdering::Maximize, isize::MAX);
    assert_ne!(a, b);
    assert!((a < b) != (b < a));
    assert_eq!(a, 3);
    assert_eq!(b, 5);
}

#[test]
fn meta_score_respects_minimize_ordering() {
    let mut low = Stats::new();
    low.record(1_000, 1, Some(3));
    let mut high = Stats::new();
    high.record(1_000, 1, Some(5));
    let a = meta_score(&low, FitnessOrdering::Minimize, isize::MAX);
    let b = meta_score(&high, FitnessOrdering::Minimize, isize::MAX);
    assert_eq!(a, -3);
    assert_eq!(b, -5);
    assert!(a > b);
}

#[test]
fn meta_score_charges_slower_runs() {
    let mut fast = Stats::new();
    fast.record(1_000, 1, Some(10));
    let mut slow = Stats::new();
    slow.record(5_000, 1, Some(10));
    let a = meta_score(&fast, FitnessOrdering::Maximize, 1000);
    let b = meta_score(&slow, FitnessOrdering::Maximize, 1000);
    assert_eq!(a, 9);
    assert_eq!(b, 5);
    assert!(a > b);
}
