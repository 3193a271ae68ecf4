use genetic_algorithm_meta::stats::Stats;

#[test]
fn stats_count_matches_records() {
    let mut stats = Stats::new();
    stats.record(1_000, 5, Some(10));
    stats.record(2_000, 6, Some(11));
    stats.record(3_000, 7, Some(12));
    stats.record(4_000, 8, Some(13));
    assert_eq!(stats.duration_count(), 4);
    assert_eq!(stats.best_generation_count(), 4);
    assert_eq!(stats.best_fitness_score_count(), 4);
}

#[test]
fn stats_mean_of_single_element_is_that_element() {
    let mut stats = Stats::new();
    stats.record(123_456, 42, Some(-7));
    assert_eq!(stats.duration_mean_subsec_micros(), 123_456);
    assert_eq!(stats.duration_mean_subsec_millis(), 123);
    assert_eq!(stats.best_generation_mean(), 42);
    assert_eq!(stats.best_fitness_score_mean(), -7);
}

#[test]
fn stats_stddev_of_constant_series_is_zero() {
    let mut stats = Stats::new();
    for _ in 0..5 {
        stats.record(250_000, 9, Some(33));
    }
    assert_eq!(stats.duration_mean_subsec_micros(), 250_000);
    assert_eq!(stats.duration_stddev_subsec_micros(), 0);
    assert_eq!(stats.duration_stddev_subsec_millis(), 0);
    assert_eq!(stats.best_generation_mean(), 9);
    assert_eq!(stats.best_generation_stddev(), Some(0));
    assert_eq!(stats.best_fitness_score_mean(), 33);
    assert_eq!(stats.best_fitness_score_stddev(), Some(0));
}

#[test]
fn stats_fitness_statistics_ignore_absent_values() {
    let mut stats = Stats::new();
    stats.record(1_000, 1, Some(10));
    stats.record(2_000, 2, None);
    stats.record(3_000, 3, Some(20));
    assert_eq!(stats.duration_count(), 3);
    assert_eq!(stats.best_fitness_score_count(), 2);
    assert_eq!(stats.best_fitness_score_mean(), 15);
    let sd = stats.best_fitness_score_stddev().unwrap();
    assert_eq!(sd, 5);
}

#[test]
fn stats_empty_series_statistics_are_zero() {
    let stats = Stats::new();
    assert_eq!(stats.duration_count(), 0);
    assert_eq!(stats.best_generation_count(), 0);
    assert_eq!(stats.best_fitness_score_count(), 0);
    assert_eq!(stats.duration_mean_subsec_micros(), 0);
    assert_eq!(stats.duration_mean_subsec_millis(), 0);
    assert_eq!(stats.duration_stddev_subsec_micros(), 0);
    assert_eq!(stats.duration_stddev_subsec_millis(), 0);
    assert_eq!(stats.best_generation_mean(), 0);
    assert_eq!(stats.best_generation_stddev(), Some(0));
    assert_eq!(stats.best_fitness_score_mean(), 0);
    assert_eq!(stats.best_fitness_score_stddev(), Some(0));
}

#[test]
fn stats_fitness_mean_rounds_half_away_from_zero() {
    let mut stats = Stats::new();
    stats.record(1_000, 1, Some(1));
    stats.record(1_000, 1, Some(2));
    assert_eq!(stats.best_fitness_score_mean(), 2);

    let mut negative = Stats::new();
    negative.record(1_000, 1, Some(-1));
    negative.record(1_000, 1, Some(-2));
    assert_eq!(negative.best_fitness_score_mean(), -2);
}

#[test]
fn stats_subsec_parts_drop_whole_seconds() {
    let mut stats = Stats::new();
    stats.record(3_234_567, 1, Some(0));
    assert_eq!(stats.duration_mean_subsec_micros(), 234_567);
    assert_eq!(stats.duration_mean_subsec_millis(), 234);
}

#[test]
fn prelude_aliases_name_the_core_types() {
    let stats = genetic_algorithm_meta::prelude::MetaStats::new();
    assert_eq!(stats.duration_count(), 0);
}
