use vstd::prelude::*;
use vstd::arithmetic::div_mod::lemma_div_multiples_vanish;
use crate::math::{
    abs_int, int_sum, is_floor_sqrt, lemma_floor_div_bound, lemma_int_sum_bounds,
    lemma_int_sum_nonneg, lemma_int_sum_push, lemma_mul_le, lemma_round_div_range, round_div,
    isqrt_u128,
};

verus! {

/// Sub-second microsecond part of a duration given in total microseconds.
pub open spec fn subsec_micros_of(d: u64) -> int {
    (d as int) % 1_000_000
}

/// Sub-second millisecond part of a duration given in total microseconds.
pub open spec fn subsec_millis_of(d: u64) -> int {
    ((d as int) % 1_000_000) / 1000
}

pub open spec fn subsec_micros_view(s: Seq<u64>) -> Seq<int> {
    s.map_values(|d: u64| subsec_micros_of(d))
}

pub open spec fn subsec_millis_view(s: Seq<u64>) -> Seq<int> {
    s.map_values(|d: u64| subsec_millis_of(d))
}

pub open spec fn micros_view(s: Seq<u64>) -> Seq<int> {
    s.map_values(|d: u64| d as int)
}

pub open spec fn gen_view(s: Seq<usize>) -> Seq<int> {
    s.map_values(|g: usize| g as int)
}

/// Number of trials that produced a fitness value.
pub open spec fn fitness_present_count(s: Seq<Option<isize>>) -> int {
    int_sum(s.map_values(|o: Option<isize>| if o is Some { 1int } else { 0int }))
}

/// Sum of the fitness values that are present; absent trials contribute nothing.
pub open spec fn fitness_sum(s: Seq<Option<isize>>) -> int {
    int_sum(
        s.map_values(
            |o: Option<isize>| match o {
                Option::Some(v) => v as int,
                Option::None => 0int,
            },
        ),
    )
}

/// Mean with floor division; defined as 0 for an empty series.
pub open spec fn floor_mean(sum: int, count: int) -> int {
    if count == 0 {
        0
    } else {
        sum / count
    }
}

pub open spec fn sqdev_view(v: Seq<int>, m: int) -> Seq<int> {
    v.map_values(|x: int| (x - m) * (x - m))
}

/// Population variance about the floor mean, with floor division;
/// defined as 0 for an empty series.
pub open spec fn series_variance(v: Seq<int>) -> int {
    if v.len() == 0 {
        0
    } else {
        int_sum(sqdev_view(v, floor_mean(int_sum(v), v.len() as int))) / (v.len() as int)
    }
}

/// Mean of the present fitness values, rounded half away from zero;
/// defined as 0 when no fitness value is present.
pub open spec fn fitness_mean_spec(s: Seq<Option<isize>>) -> int {
    if fitness_present_count(s) == 0 {
        0
    } else {
        round_div(fitness_sum(s), fitness_present_count(s))
    }
}

/// Squared deviations of the present fitness values about `m`;
/// absent trials contribute nothing.
pub open spec fn fitness_sqdev_sum(s: Seq<Option<isize>>, m: int) -> int {
    int_sum(
        s.map_values(
            |o: Option<isize>| match o {
                Option::Some(v) => (v as int - m) * (v as int - m),
                Option::None => 0int,
            },
        ),
    )
}

/// Population variance of the present fitness values about the rounded mean;
/// defined as 0 when no fitness value is present.
pub open spec fn fitness_variance(s: Seq<Option<isize>>) -> int {
    let c = fitness_present_count(s);
    if c == 0 {
        0
    } else {
        fitness_sqdev_sum(s, fitness_mean_spec(s)) / c
    }
}

/// Squared deviations are never negative, so their sum is not either.
pub proof fn lemma_sqdev_sum_nonneg(v: Seq<int>, m: int)
    ensures
        0 <= int_sum(sqdev_view(v, m)),
{
    let sv = sqdev_view(v, m);
    assert(forall|j: int| 0 <= j < sv.len() ==> 0 <= #[trigger] sv[j]) by {
        assert forall|j: int| 0 <= j < sv.len() implies 0 <= #[trigger] sv[j] by {
            let d = v[j] - m;
            assert(sv[j] == d * d);
            assert(d * d >= 0) by (nonlinear_arith);
        }
    }
    lemma_int_sum_nonneg(sv);
}

/// The fitness squared-deviation sum is never negative.
pub proof fn lemma_fitness_sqdev_sum_nonneg(s: Seq<Option<isize>>, m: int)
    ensures
        0 <= fitness_sqdev_sum(s, m),
{
    let sv = s.map_values(
        |o: Option<isize>| match o {
            Option::Some(v) => (v as int - m) * (v as int - m),
            Option::None => 0int,
        },
    );
    assert(forall|j: int| 0 <= j < sv.len() ==> 0 <= #[trigger] sv[j]) by {
        assert forall|j: int| 0 <= j < sv.len() implies 0 <= #[trigger] sv[j] by {
            lemma_sq_nonneg_entry(s, m, j);
        }
    }
    lemma_int_sum_nonneg(sv);
}

/// The mean of a single-element series is that element.
pub proof fn lemma_mean_of_single_element(v: Seq<int>)
    requires
        v.len() == 1,
    ensures
        floor_mean(int_sum(v), 1) == v[0],
{
    assert(v.drop_last() =~= Seq::<int>::empty());
    assert(int_sum(Seq::<int>::empty()) == 0);
    assert(int_sum(v) == v[0]);
    lemma_div_multiples_vanish(v[0], 1);
    assert(1 * v[0] == v[0]) by (nonlinear_arith);
}

/// The variance of a constant series is zero, so its standard deviation is too.
pub proof fn lemma_variance_of_constant_is_zero(v: Seq<int>, c: int)
    requires
        0 <= c,
        forall|i: int| 0 <= i < v.len() ==> #[trigger] v[i] == c,
    ensures
        series_variance(v) == 0,
{
    if v.len() > 0 {
        let n = v.len() as int;
        lemma_int_sum_bounds(v, c, c);
        assert(int_sum(v) == n * c);
        lemma_div_multiples_vanish(c, n);
        let m = floor_mean(int_sum(v), n);
        assert(m == c);
        let sv = sqdev_view(v, m);
        assert(forall|i: int| 0 <= i < sv.len() ==> #[trigger] sv[i] == 0) by {
            assert forall|i: int| 0 <= i < sv.len() implies #[trigger] sv[i] == 0 by {
                let d = v[i] - m;
                assert(sv[i] == d * d);
                assert(d == 0);
                assert(d * d == 0) by (nonlinear_arith)
                    requires d == 0;
            }
        }
        lemma_int_sum_bounds(sv, 0, 0);
        assert(sv.len() * 0 == 0) by (nonlinear_arith);
        assert(int_sum(sv) == 0);
        lemma_div_multiples_vanish(0, n);
        assert(n * 0 == 0) by (nonlinear_arith);
    }
}

/// Fitness statistics ignore absent values: an absent trial changes neither
/// the present count nor the sum; a present one extends both.
pub proof fn lemma_fitness_ignores_absent(s: Seq<Option<isize>>, x: isize)
    ensures
        fitness_present_count(s.push(Option::None)) == fitness_present_count(s),
        fitness_sum(s.push(Option::None)) == fitness_sum(s),
        fitness_present_count(s.push(Option::Some(x))) == fitness_present_count(s) + 1,
        fitness_sum(s.push(Option::Some(x))) == fitness_sum(s) + x,
{
    let cview = |o: Option<isize>| if o is Some { 1int } else { 0int };
    let sview = |o: Option<isize>| match o {
        Option::Some(v) => v as int,
        Option::None => 0int,
    };
    assert(s.push(Option::None).map_values(cview) =~= s.map_values(cview).push(0));
    assert(s.push(Option::None).map_values(sview) =~= s.map_values(sview).push(0));
    assert(s.push(Option::Some(x)).map_values(cview) =~= s.map_values(cview).push(1));
    assert(s.push(Option::Some(x)).map_values(sview) =~= s.map_values(sview).push(x as int));
    lemma_int_sum_push(s.map_values(cview), 0);
    lemma_int_sum_push(s.map_values(sview), 0);
    lemma_int_sum_push(s.map_values(cview), 1);
    lemma_int_sum_push(s.map_values(sview), x as int);
}

/// A series of trials that all carry the same fitness value has that value
/// as its mean and zero variance, so zero standard deviation as well.
pub proof fn lemma_fitness_variance_of_constant_is_zero(s: Seq<Option<isize>>, c: isize)
    requires
        s.len() >= 1,
        forall|i: int| 0 <= i < s.len() ==> #[trigger] s[i] == Option::<isize>::Some(c),
    ensures
        fitness_present_count(s) == s.len(),
        fitness_mean_spec(s) == c,
        fitness_variance(s) == 0,
{
    let n = s.len() as int;
    let cv = s.map_values(|o: Option<isize>| if o is Some { 1int } else { 0int });
    assert(forall|i: int| 0 <= i < cv.len() ==> #[trigger] cv[i] == 1);
    lemma_int_sum_bounds(cv, 1, 1);
    assert(n * 1 == n) by (nonlinear_arith);
    assert(fitness_present_count(s) == n);
    let sv = s.map_values(
        |o: Option<isize>| match o {
            Option::Some(v) => v as int,
            Option::None => 0int,
        },
    );
    assert(forall|i: int| 0 <= i < sv.len() ==> #[trigger] sv[i] == c as int);
    lemma_int_sum_bounds(sv, c as int, c as int);
    assert(fitness_sum(s) == n * c);
    if c >= 0 {
        assert(n * c >= 0) by (nonlinear_arith)
            requires n >= 1, c >= 0;
        assert(abs_int(n * c) == n * c);
    } else {
        assert(n * c < 0) by (nonlinear_arith)
            requires n >= 1, c < 0;
        assert(-(n * c) == n * (-c as int)) by (nonlinear_arith);
        assert(abs_int(n * c) == n * (abs_int(c as int)));
    }
    lemma_div_multiples_vanish(abs_int(c as int), n);
    vstd::arithmetic::div_mod::lemma_mod_multiples_basic(abs_int(c as int), n);
    assert(abs_int(c as int) * n == n * abs_int(c as int)) by (nonlinear_arith);
    assert(fitness_mean_spec(s) == c);
    let dv = s.map_values(
        |o: Option<isize>| match o {
            Option::Some(v) => (v as int - c) * (v as int - c),
            Option::None => 0int,
        },
    );
    assert(forall|i: int| 0 <= i < dv.len() ==> #[trigger] dv[i] == 0) by {
        assert forall|i: int| 0 <= i < dv.len() implies #[trigger] dv[i] == 0 by {
            assert(dv[i] == ((c as int) - (c as int)) * ((c as int) - (c as int)));
            assert(((c as int) - (c as int)) * ((c as int) - (c as int)) == 0)
                by (nonlinear_arith);
        }
    }
    lemma_int_sum_bounds(dv, 0, 0);
    assert(dv.len() * 0 == 0) by (nonlinear_arith);
    assert(fitness_sqdev_sum(s, c as int) == 0);
    lemma_div_multiples_vanish(0, n);
    assert(n * 0 == 0) by (nonlinear_arith);
}

/// Append-only accumulator of trial outcomes for one configuration point.
///
/// Three parallel series: elapsed durations in total microseconds, the
/// generation index at which the best solution was found, and the optional
/// best fitness value (`None` when the trial produced no feasible solution).
/// Statistics are integer-valued: means use floor division (the fitness mean
/// rounds half away from zero), and standard deviations are the floor square
/// root of the floor population variance. On an empty series every statistic
/// is 0.
pub struct Stats {
    pub durations: Vec<u64>,
    pub best_generations: Vec<usize>,
    pub best_fitness_scores: Vec<Option<isize>>,
}

impl Stats {
    pub fn new() -> (r: Stats)
        ensures
            r.durations@ =~= Seq::<u64>::empty(),
            r.best_generations@ =~= Seq::<usize>::empty(),
            r.best_fitness_scores@ =~= Seq::<Option<isize>>::empty(),
    {
        Stats {
            durations: Vec::new(),
            best_generations: Vec::new(),
            best_fitness_scores: Vec::new(),
        }
    }

    /// Appends one trial outcome; never fails and never discards data.
    pub fn record(
        &mut self,
        duration_micros: u64,
        best_generation: usize,
        best_fitness_score: Option<isize>,
    )
        ensures
            final(self).durations@ =~= old(self).durations@.push(duration_micros),
            final(self).best_generations@ =~= old(self).best_generations@.push(best_generation),
            final(self).best_fitness_scores@ =~= old(self).best_fitness_scores@.push(
                best_fitness_score,
            ),
    {
        self.durations.push(duration_micros);
        self.best_generations.push(best_generation);
        self.best_fitness_scores.push(best_fitness_score);
    }

    pub fn duration_count(&self) -> (r: usize)
        ensures
            r == self.durations@.len(),
    {
        self.durations.len()
    }

    pub fn best_generation_count(&self) -> (r: usize)
        ensures
            r == self.best_generations@.len(),
    {
        self.best_generations.len()
    }

    pub fn best_fitness_score_count(&self) -> (r: usize)
        ensures
            r == fitness_present_count(self.best_fitness_scores@),
    {
        let s = &self.best_fitness_scores;
        let ghost v = s@.map_values(|o: Option<isize>| if o is Some { 1int } else { 0int });
        let mut i: usize = 0;
        let mut count: usize = 0;
        while i < s.len()
            invariant
                i <= s@.len(),
                v.len() == s@.len(),
                v == s@.map_values(|o: Option<isize>| if o is Some { 1int } else { 0int }),
                count == int_sum(v.take(i as int)),
                count <= i,
            decreases s@.len() - i,
        {
            proof {
                assert(v.take(i as int + 1) =~= v.take(i as int).push(v[i as int]));
                lemma_int_sum_push(v.take(i as int), v[i as int]);
            }
            if s[i].is_some() {
                count = count + 1;
            }
            i = i + 1;
        }
        proof {
            assert(v.take(s@.len() as int) =~= v);
        }
        count
    }

    /// Total of all recorded durations, in microseconds.
    pub fn duration_sum_micros(&self) -> (r: u128)
        ensures
            r == int_sum(micros_view(self.durations@)),
    {
        let ghost v = micros_view(self.durations@);
        let mut i: usize = 0;
        let mut acc: u128 = 0;
        while i < self.durations.len()
            invariant
                i <= self.durations@.len(),
                v.len() == self.durations@.len(),
                v == micros_view(self.durations@),
                acc == int_sum(v.take(i as int)),
            decreases self.durations@.len() - i,
        {
            proof {
                assert(v.take(i as int + 1) =~= v.take(i as int).push(v[i as int]));
                lemma_int_sum_push(v.take(i as int), v[i as int]);
                lemma_int_sum_bounds(v.take(i as int), 0, u64::MAX as int);
                lemma_mul_le(i as int, u64::MAX as int, u64::MAX as int, u64::MAX as int);
            }
            acc = acc + (self.durations[i] as u128);
            i = i + 1;
        }
        proof {
            assert(v.take(self.durations@.len() as int) =~= v);
        }
        acc
    }

    pub fn duration_mean_subsec_micros(&self) -> (r: u64)
        ensures
            r == floor_mean(
                int_sum(subsec_micros_view(self.durations@)),
                self.durations@.len() as int,
            ),
    {
        let n = self.durations.len();
        if n == 0 {
            return 0;
        }
        let sum = sum_subsec_micros(&self.durations);
        proof {
            let v = subsec_micros_view(self.durations@);
            lemma_int_sum_nonneg(v);
            lemma_int_sum_bounds(v, 0, 999_999);
            lemma_floor_div_bound(sum as int, n as int, 999_999);
        }
        (sum / (n as u128)) as u64
    }

    pub fn duration_mean_subsec_millis(&self) -> (r: u64)
        ensures
            r == floor_mean(
                int_sum(subsec_millis_view(self.durations@)),
                self.durations@.len() as int,
            ),
    {
        let n = self.durations.len();
        if n == 0 {
            return 0;
        }
        let sum = sum_subsec_millis(&self.durations);
        proof {
            let v = subsec_millis_view(self.durations@);
            lemma_int_sum_nonneg(v);
            lemma_int_sum_bounds(v, 0, 999);
            lemma_floor_div_bound(sum as int, n as int, 999);
        }
        (sum / (n as u128)) as u64
    }

    /// Floor square root of the variance of the sub-second microsecond parts.
    pub fn duration_stddev_subsec_micros(&self) -> (r: u64)
        ensures
            is_floor_sqrt(series_variance(subsec_micros_view(self.durations@)), r as int),
    {
        let n = self.durations.len();
        if n == 0 {
            return 0;
        }
        let m = self.duration_mean_subsec_micros();
        proof {
            let v = subsec_micros_view(self.durations@);
            lemma_int_sum_nonneg(v);
            lemma_int_sum_bounds(v, 0, 999_999);
            lemma_floor_div_bound(int_sum(v), n as int, 999_999);
        }
        let sq = sum_subsec_micros_sqdev(&self.durations, m);
        proof {
            lemma_sqdev_sum_nonneg(subsec_micros_view(self.durations@), m as int);
        }
        let var = sq / (n as u128);
        isqrt_u128(var)
    }

    /// Floor square root of the variance of the sub-second millisecond parts.
    pub fn duration_stddev_subsec_millis(&self) -> (r: u64)
        ensures
            is_floor_sqrt(series_variance(subsec_millis_view(self.durations@)), r as int),
    {
        let n = self.durations.len();
        if n == 0 {
            return 0;
        }
        let m = self.duration_mean_subsec_millis();
        proof {
            let v = subsec_millis_view(self.durations@);
            lemma_int_sum_nonneg(v);
            lemma_int_sum_bounds(v, 0, 999);
            lemma_floor_div_bound(int_sum(v), n as int, 999);
        }
        let sq = sum_subsec_millis_sqdev(&self.durations, m);
        proof {
            lemma_sqdev_sum_nonneg(subsec_millis_view(self.durations@), m as int);
        }
        let var = sq / (n as u128);
        isqrt_u128(var)
    }

    pub fn best_generation_mean(&self) -> (r: usize)
        ensures
            r == floor_mean(
                int_sum(gen_view(self.best_generations@)),
                self.best_generations@.len() as int,
            ),
    {
        let n = self.best_generations.len();
        if n == 0 {
            return 0;
        }
        let sum = sum_generations(&self.best_generations);
        proof {
            let v = gen_view(self.best_generations@);
            lemma_int_sum_nonneg(v);
            lemma_int_sum_bounds(v, 0, usize::MAX as int);
            lemma_floor_div_bound(sum as int, n as int, usize::MAX as int);
        }
        (sum / (n as u128)) as usize
    }

    /// Floor square root of the variance of the best-generation series.
    /// `None` only when the sum of squared deviations exceeds `u128::MAX`.
    pub fn best_generation_stddev(&self) -> (r: Option<u64>)
        ensures
            match r {
                Some(sd) => is_floor_sqrt(
                    series_variance(gen_view(self.best_generations@)),
                    sd as int,
                ),
                None => int_sum(
                    sqdev_view(
                        gen_view(self.best_generations@),
                        floor_mean(
                            int_sum(gen_view(self.best_generations@)),
                            self.best_generations@.len() as int,
                        ),
                    ),
                ) > u128::MAX,
            },
    {
        let n = self.best_generations.len();
        if n == 0 {
            proof {
                assert(gen_view(self.best_generations@).len() == 0);
                assert(series_variance(gen_view(self.best_generations@)) == 0);
                assert(is_floor_sqrt(0, 0)) by (nonlinear_arith);
            }
            return Some(0);
        }
        let m = self.best_generation_mean();
        let sq = match sum_generations_sqdev(&self.best_generations, m) {
            Some(sq) => sq,
            None => {
                return None;
            },
        };
        proof {
            lemma_sqdev_sum_nonneg(gen_view(self.best_generations@), m as int);
        }
        let var = sq / (n as u128);
        Some(isqrt_u128(var))
    }

    pub fn best_fitness_score_mean(&self) -> (r: isize)
        ensures
            r == fitness_mean_spec(self.best_fitness_scores@),
    {
        let c = self.best_fitness_score_count();
        if c == 0 {
            return 0;
        }
        let sum = sum_fitness(&self.best_fitness_scores);
        proof {
            lemma_fitness_sum_bounds(self.best_fitness_scores@);
        }
        round_div_exec(sum, c as u128)
    }

    /// Floor square root of the variance of the present fitness values.
    /// `None` only when the sum of squared deviations exceeds `u128::MAX`.
    pub fn best_fitness_score_stddev(&self) -> (r: Option<u64>)
        ensures
            match r {
                Some(sd) => is_floor_sqrt(
                    fitness_variance(self.best_fitness_scores@),
                    sd as int,
                ),
                None => fitness_sqdev_sum(
                    self.best_fitness_scores@,
                    fitness_mean_spec(self.best_fitness_scores@),
                ) > u128::MAX,
            },
    {
        let c = self.best_fitness_score_count();
        if c == 0 {
            proof {
                assert(fitness_variance(self.best_fitness_scores@) == 0);
                assert(is_floor_sqrt(0, 0)) by (nonlinear_arith);
            }
            return Some(0);
        }
        let m = self.best_fitness_score_mean();
        let sq = match sum_fitness_sqdev(&self.best_fitness_scores, m) {
            Some(sq) => sq,
            None => {
                return None;
            },
        };
        proof {
            lemma_fitness_sqdev_sum_nonneg(self.best_fitness_scores@, m as int);
        }
        let var = sq / (c as u128);
        Some(isqrt_u128(var))
    }
}

/// Sum of the sub-second microsecond parts; bounded by `len * 999_999`.
fn sum_subsec_micros(ds: &Vec<u64>) -> (r: u128)
    ensures
        r == int_sum(subsec_micros_view(ds@)),
{
    let ghost v = subsec_micros_view(ds@);
    let mut i: usize = 0;
    let mut acc: u128 = 0;
    while i < ds.len()
        invariant
            i <= ds@.len(),
            v.len() == ds@.len(),
            v == subsec_micros_view(ds@),
            acc == int_sum(v.take(i as int)),
        decreases ds@.len() - i,
    {
        proof {
            assert(v.take(i as int + 1) =~= v.take(i as int).push(v[i as int]));
            lemma_int_sum_push(v.take(i as int), v[i as int]);
            lemma_int_sum_bounds(v.take(i as int), 0, 999_999);
            lemma_mul_le(i as int, 999_999, u64::MAX as int, 999_999);
        }
        acc = acc + ((ds[i] % 1_000_000) as u128);
        i = i + 1;
    }
    proof {
        assert(v.take(ds@.len() as int) =~= v);
    }
    acc
}

/// Sum of the sub-second millisecond parts; bounded by `len * 999`.
fn sum_subsec_millis(ds: &Vec<u64>) -> (r: u128)
    ensures
        r == int_sum(subsec_millis_view(ds@)),
{
    let ghost v = subsec_millis_view(ds@);
    let mut i: usize = 0;
    let mut acc: u128 = 0;
    while i < ds.len()
        invariant
            i <= ds@.len(),
            v.len() == ds@.len(),
            v == subsec_millis_view(ds@),
            acc == int_sum(v.take(i as int)),
        decreases ds@.len() - i,
    {
        proof {
            assert(v.take(i as int + 1) =~= v.take(i as int).push(v[i as int]));
            lemma_int_sum_push(v.take(i as int), v[i as int]);
            lemma_int_sum_bounds(v.take(i as int), 0, 999);
            lemma_mul_le(i as int, 999, u64::MAX as int, 999);
        }
        acc = acc + (((ds[i] % 1_000_000) / 1000) as u128);
        i = i + 1;
    }
    proof {
        assert(v.take(ds@.len() as int) =~= v);
    }
    acc
}

/// Sum of squared deviations of the sub-second microsecond parts about `m`.
fn sum_subsec_micros_sqdev(ds: &Vec<u64>, m: u64) -> (r: u128)
    requires
        m <= 999_999,
    ensures
        r == int_sum(sqdev_view(subsec_micros_view(ds@), m as int)),
{
    let ghost v = subsec_micros_view(ds@);
    let ghost sv = sqdev_view(v, m as int);
    let mut i: usize = 0;
    let mut acc: u128 = 0;
    while i < ds.len()
        invariant
            i <= ds@.len(),
            sv.len() == ds@.len(),
            v == subsec_micros_view(ds@),
            sv == sqdev_view(v, m as int),
            m <= 999_999,
            acc == int_sum(sv.take(i as int)),
        decreases ds@.len() - i,
    {
        proof {
            assert(v[i as int] == subsec_micros_of(ds@[i as int]));
            assert(sv[i as int] == (v[i as int] - m) * (v[i as int] - m));
            assert(sv.take(i as int + 1) =~= sv.take(i as int).push(sv[i as int]));
            lemma_int_sum_push(sv.take(i as int), sv[i as int]);
            assert(forall|j: int| 0 <= j < sv.len() ==> 0 <= #[trigger] sv[j]
                <= 999_999 * 999_999) by {
                assert forall|j: int| 0 <= j < sv.len() implies 0 <= #[trigger] sv[j]
                    <= 999_999 * 999_999 by {
                    let d = v[j] - m;
                    assert(-999_999 <= d <= 999_999);
                    assert(0 <= d * d <= 999_999 * 999_999) by (nonlinear_arith)
                        requires -999_999 <= d <= 999_999;
                }
            }
            lemma_int_sum_bounds(sv.take(i as int), 0, (999_999 * 999_999) as int);
            lemma_mul_le(i as int, (999_999 * 999_999) as int, u64::MAX as int, (999_999 * 999_999) as int);
        }
        let x: u128 = (ds[i] % 1_000_000) as u128;
        let d: u128 = if x >= (m as u128) {
            x - (m as u128)
        } else {
            (m as u128) - x
        };
        proof {
            let dd = v[i as int] - m;
            assert(d as int == abs_int(dd));
            assert(abs_int(dd) * abs_int(dd) == dd * dd) by (nonlinear_arith);
            assert(d as int * d as int <= 999_999 * 999_999) by (nonlinear_arith)
                requires 0 <= d as int <= 999_999;
        }
        acc = acc + d * d;
        i = i + 1;
    }
    proof {
        assert(sv.take(ds@.len() as int) =~= sv);
    }
    acc
}

/// Sum of squared deviations of the sub-second millisecond parts about `m`.
fn sum_subsec_millis_sqdev(ds: &Vec<u64>, m: u64) -> (r: u128)
    requires
        m <= 999,
    ensures
        r == int_sum(sqdev_view(subsec_millis_view(ds@), m as int)),
{
    let ghost v = subsec_millis_view(ds@);
    let ghost sv = sqdev_view(v, m as int);
    let mut i: usize = 0;
    let mut acc: u128 = 0;
    while i < ds.len()
        invariant
            i <= ds@.len(),
            sv.len() == ds@.len(),
            v == subsec_millis_view(ds@),
            sv == sqdev_view(v, m as int),
            m <= 999,
            acc == int_sum(sv.take(i as int)),
        decreases ds@.len() - i,
    {
        proof {
            assert(v[i as int] == subsec_millis_of(ds@[i as int]));
            assert(sv[i as int] == (v[i as int] - m) * (v[i as int] - m));
            assert(sv.take(i as int + 1) =~= sv.take(i as int).push(sv[i as int]));
            lemma_int_sum_push(sv.take(i as int), sv[i as int]);
            assert(forall|j: int| 0 <= j < sv.len() ==> 0 <= #[trigger] sv[j] <= 999 * 999) by {
                assert forall|j: int| 0 <= j < sv.len() implies 0 <= #[trigger] sv[j]
                    <= 999 * 999 by {
                    let d = v[j] - m;
                    assert(-999 <= d <= 999);
                    assert(0 <= d * d <= 999 * 999) by (nonlinear_arith)
                        requires -999 <= d <= 999;
                }
            }
            lemma_int_sum_bounds(sv.take(i as int), 0, (999 * 999) as int);
            lemma_mul_le(i as int, (999 * 999) as int, u64::MAX as int, (999 * 999) as int);
        }
        let x: u128 = ((ds[i] % 1_000_000) / 1000) as u128;
        let d: u128 = if x >= (m as u128) {
            x - (m as u128)
        } else {
            (m as u128) - x
        };
        proof {
            let dd = v[i as int] - m;
            assert(d as int == abs_int(dd));
            assert(abs_int(dd) * abs_int(dd) == dd * dd) by (nonlinear_arith);
            assert(d as int * d as int <= 999 * 999) by (nonlinear_arith)
                requires 0 <= d as int <= 999;
        }
        acc = acc + d * d;
        i = i + 1;
    }
    proof {
        assert(sv.take(ds@.len() as int) =~= sv);
    }
    acc
}

/// Sum of the best-generation series; bounded by `len * usize::MAX`.
fn sum_generations(gs: &Vec<usize>) -> (r: u128)
    ensures
        r == int_sum(gen_view(gs@)),
{
    let ghost v = gen_view(gs@);
    let mut i: usize = 0;
    let mut acc: u128 = 0;
    while i < gs.len()
        invariant
            i <= gs@.len(),
            v.len() == gs@.len(),
            v == gen_view(gs@),
            acc == int_sum(v.take(i as int)),
        decreases gs@.len() - i,
    {
        proof {
            assert(v.take(i as int + 1) =~= v.take(i as int).push(v[i as int]));
            lemma_int_sum_push(v.take(i as int), v[i as int]);
            lemma_int_sum_bounds(v.take(i as int), 0, usize::MAX as int);
            lemma_mul_le(i as int, usize::MAX as int, u64::MAX as int, u64::MAX as int);
        }
        acc = acc + (gs[i] as u128);
        i = i + 1;
    }
    proof {
        assert(v.take(gs@.len() as int) =~= v);
    }
    acc
}

/// Sum of squared deviations of the best-generation series about `m`,
/// or `None` when it exceeds `u128::MAX`.
fn sum_generations_sqdev(gs: &Vec<usize>, m: usize) -> (r: Option<u128>)
    ensures
        match r {
            Some(sq) => sq == int_sum(sqdev_view(gen_view(gs@), m as int)),
            None => int_sum(sqdev_view(gen_view(gs@), m as int)) > u128::MAX,
        },
{
    let ghost v = gen_view(gs@);
    let ghost sv = sqdev_view(v, m as int);
    let mut i: usize = 0;
    let mut acc: u128 = 0;
    while i < gs.len()
        invariant
            i <= gs@.len(),
            sv.len() == gs@.len(),
            v == gen_view(gs@),
            sv == sqdev_view(v, m as int),
            acc == int_sum(sv.take(i as int)),
        decreases gs@.len() - i,
    {
        proof {
            assert(v[i as int] == gs@[i as int] as int);
            assert(sv[i as int] == (v[i as int] - m) * (v[i as int] - m));
            assert(sv.take(i as int + 1) =~= sv.take(i as int).push(sv[i as int]));
            lemma_int_sum_push(sv.take(i as int), sv[i as int]);
        }
        let x: u128 = gs[i] as u128;
        let d: u128 = if x >= (m as u128) {
            x - (m as u128)
        } else {
            (m as u128) - x
        };
        proof {
            let dd = v[i as int] - m;
            assert(d as int == abs_int(dd));
            assert(abs_int(dd) * abs_int(dd) == dd * dd) by (nonlinear_arith);
            assert(d as int * d as int <= u64::MAX as int * u64::MAX as int) by (nonlinear_arith)
                requires 0 <= d as int <= u64::MAX as int;
        }
        let dd = d * d;
        let next = match acc.checked_add(dd) {
            Some(next) => next,
            None => {
                proof {
                    let tail = sv.skip(i as int + 1);
                    assert(forall|j: int| 0 <= j < tail.len() ==> 0 <= #[trigger] tail[j]) by {
                        assert forall|j: int| 0 <= j < tail.len() implies 0
                            <= #[trigger] tail[j] by {
                            let e = v[i as int + 1 + j] - m;
                            assert(tail[j] == e * e);
                            assert(e * e >= 0) by (nonlinear_arith);
                        }
                    }
                    lemma_int_sum_nonneg(tail);
                    lemma_int_sum_split(sv, i as int + 1);
                }
                return None;
            },
        };
        acc = next;
        i = i + 1;
    }
    proof {
        assert(sv.take(gs@.len() as int) =~= sv);
    }
    Some(acc)
}

/// Sum of the present fitness values; magnitude bounded by `len * isize::MAX + len`.
fn sum_fitness(fs: &Vec<Option<isize>>) -> (r: i128)
    ensures
        r == fitness_sum(fs@),
{
    let ghost v = fs@.map_values(
        |o: Option<isize>| match o {
            Option::Some(x) => x as int,
            Option::None => 0int,
        },
    );
    let mut i: usize = 0;
    let mut acc: i128 = 0;
    while i < fs.len()
        invariant
            i <= fs@.len(),
            v.len() == fs@.len(),
            v == fs@.map_values(
                |o: Option<isize>| match o {
                    Option::Some(x) => x as int,
                    Option::None => 0int,
                },
            ),
            acc == int_sum(v.take(i as int)),
        decreases fs@.len() - i,
    {
        proof {
            assert(v.take(i as int + 1) =~= v.take(i as int).push(v[i as int]));
            lemma_int_sum_push(v.take(i as int), v[i as int]);
            lemma_int_sum_bounds(v.take(i as int), isize::MIN as int, isize::MAX as int);
            lemma_mul_le(i as int, -(isize::MIN as int), u64::MAX as int, -(isize::MIN as int));
            lemma_mul_le(i as int, isize::MAX as int, u64::MAX as int, isize::MAX as int);
        }
        let x: i128 = match fs[i] {
            Some(x) => x as i128,
            None => 0,
        };
        acc = acc + x;
        i = i + 1;
    }
    proof {
        assert(v.take(fs@.len() as int) =~= v);
    }
    acc
}

/// Sum of squared deviations of the present fitness values about `m`,
/// or `None` when it exceeds `u128::MAX`.
fn sum_fitness_sqdev(fs: &Vec<Option<isize>>, m: isize) -> (r: Option<u128>)
    ensures
        match r {
            Some(sq) => sq == fitness_sqdev_sum(fs@, m as int),
            None => fitness_sqdev_sum(fs@, m as int) > u128::MAX,
        },
{
    let ghost sv = fs@.map_values(
        |o: Option<isize>| match o {
            Option::Some(x) => (x as int - m) * (x as int - m),
            Option::None => 0int,
        },
    );
    let mut i: usize = 0;
    let mut acc: u128 = 0;
    while i < fs.len()
        invariant
            i <= fs@.len(),
            sv.len() == fs@.len(),
            sv == fs@.map_values(
                |o: Option<isize>| match o {
                    Option::Some(x) => (x as int - m) * (x as int - m),
                    Option::None => 0int,
                },
            ),
            acc == int_sum(sv.take(i as int)),
        decreases fs@.len() - i,
    {
        proof {
            assert(sv.take(i as int + 1) =~= sv.take(i as int).push(sv[i as int]));
            lemma_int_sum_push(sv.take(i as int), sv[i as int]);
        }
        let d: u128 = match fs[i] {
            Some(x) => {
                let xi: i128 = x as i128;
                let mi: i128 = m as i128;
                let di: i128 = xi - mi;
                let du: u128 = if di >= 0 {
                    di as u128
                } else {
                    (-di) as u128
                };
                proof {
                    let dd = (fs@[i as int]->Some_0 as int) - m;
                    assert(du as int == abs_int(dd));
                    assert(abs_int(dd) * abs_int(dd) == dd * dd) by (nonlinear_arith);
                    assert(du as int * du as int <= u64::MAX as int * u64::MAX as int)
                        by (nonlinear_arith)
                        requires 0 <= du as int <= u64::MAX as int;
                }
                du * du
            },
            None => 0,
        };
        proof {
            assert(sv[i as int] == d as int);
        }
        let next = match acc.checked_add(d) {
            Some(next) => next,
            None => {
                proof {
                    let tail = sv.skip(i as int + 1);
                    assert(forall|j: int| 0 <= j < tail.len() ==> 0 <= #[trigger] tail[j]) by {
                        assert forall|j: int| 0 <= j < tail.len() implies 0
                            <= #[trigger] tail[j] by {
                            let x = sv[i as int + 1 + j];
                            lemma_sq_nonneg_entry(fs@, m as int, i as int + 1 + j);
                        }
                    }
                    lemma_int_sum_nonneg(tail);
                    lemma_int_sum_split(sv, i as int + 1);
                }
                return None;
            },
        };
        acc = next;
        i = i + 1;
    }
    proof {
        assert(sv.take(fs@.len() as int) =~= sv);
    }
    Some(acc)
}

proof fn lemma_sq_nonneg_entry(s: Seq<Option<isize>>, m: int, j: int)
    requires
        0 <= j < s.len(),
    ensures
        0 <= s.map_values(
            |o: Option<isize>| match o {
                Option::Some(x) => (x as int - m) * (x as int - m),
                Option::None => 0int,
            },
        )[j],
{
    let sv = s.map_values(
        |o: Option<isize>| match o {
            Option::Some(x) => (x as int - m) * (x as int - m),
            Option::None => 0int,
        },
    );
    match s[j] {
        Option::Some(x) => {
            let d = (x as int) - m;
            assert(sv[j] == d * d);
            assert(d * d >= 0) by (nonlinear_arith);
        },
        Option::None => {
            assert(sv[j] == 0);
        },
    }
}

/// A sequence's sum splits at any cut point.
proof fn lemma_int_sum_split(s: Seq<int>, k: int)
    requires
        0 <= k <= s.len(),
    ensures
        int_sum(s) == int_sum(s.take(k)) + int_sum(s.skip(k)),
    decreases s.len() - k,
{
    if k == s.len() {
        assert(s.take(k) =~= s);
        assert(s.skip(k) =~= Seq::<int>::empty());
    } else {
        lemma_int_sum_split(s, k + 1);
        assert(s.take(k + 1) =~= s.take(k).push(s[k]));
        lemma_int_sum_push(s.take(k), s[k]);
        let tail = s.skip(k);
        let tail1 = s.skip(k + 1);
        assert(tail.drop_first() =~= tail1);
        lemma_int_sum_first(tail);
    }
}

/// Peeling the first element off a non-empty sequence's sum.
proof fn lemma_int_sum_first(s: Seq<int>)
    requires
        s.len() > 0,
    ensures
        int_sum(s) == s.first() + int_sum(s.drop_first()),
    decreases s.len(),
{
    if s.len() == 1 {
        assert(s.drop_last() =~= Seq::<int>::empty());
        assert(s.drop_first() =~= Seq::<int>::empty());
    } else {
        let p = s.drop_last();
        lemma_int_sum_first(p);
        assert(p.drop_first() =~= s.drop_first().drop_last());
        assert(s.drop_first().last() == s.last());
        assert(s.first() == p.first());
    }
}

/// Rounded division, half away from zero, on machine integers.
fn round_div_exec(sum: i128, count: u128) -> (r: isize)
    requires
        1 <= count,
        count <= u64::MAX,
        sum as int >= (count as int) * (isize::MIN as int),
        sum as int <= (count as int) * (isize::MAX as int),
    ensures
        r == round_div(sum as int, count as int),
{
    proof {
        lemma_mul_le(count as int, -(isize::MIN as int), u64::MAX as int, -(isize::MIN as int));
        lemma_mul_le(count as int, isize::MAX as int, u64::MAX as int, isize::MAX as int);
        assert(sum > i128::MIN);
    }
    let neg = sum < 0;
    let a: u128 = if neg {
        (-sum) as u128
    } else {
        sum as u128
    };
    let q = a / count;
    let rem = a % count;
    let bump: u128 = if rem >= count - rem {
        1
    } else {
        0
    };
    proof {
        assert(a as int == abs_int(sum as int));
        assert((2 * (rem as int) >= count as int) == (rem as int >= count as int - rem as int));
        lemma_round_div_range(sum as int, count as int, isize::MIN as int, isize::MAX as int);
        assert(q + bump == abs_int(round_div(sum as int, count as int)));
    }
    let mag = q + bump;
    if neg {
        (-(mag as i128)) as isize
    } else {
        mag as isize
    }
}

/// The fitness sum is bounded by the present count times the `isize` range.
pub proof fn lemma_fitness_sum_bounds(s: Seq<Option<isize>>)
    ensures
        fitness_present_count(s) >= 0,
        fitness_present_count(s) <= s.len(),
        fitness_sum(s) >= fitness_present_count(s) * (isize::MIN as int),
        fitness_sum(s) <= fitness_present_count(s) * (isize::MAX as int),
    decreases s.len(),
{
    let cview = |o: Option<isize>| if o is Some { 1int } else { 0int };
    let sview = |o: Option<isize>| match o {
        Option::Some(v) => v as int,
        Option::None => 0int,
    };
    if s.len() == 0 {
        assert(s.map_values(cview) =~= Seq::<int>::empty());
        assert(s.map_values(sview) =~= Seq::<int>::empty());
    } else {
        let p = s.drop_last();
        lemma_fitness_sum_bounds(p);
        assert(p.map_values(cview) =~= s.map_values(cview).drop_last());
        assert(p.map_values(sview) =~= s.map_values(sview).drop_last());
        let c = fitness_present_count(p);
        let sum = fitness_sum(p);
        match s.last() {
            Option::Some(x) => {
                assert(fitness_present_count(s) == c + 1);
                assert(fitness_sum(s) == sum + x);
                assert((c + 1) * (isize::MIN as int) == c * (isize::MIN as int) + (
                isize::MIN as int)) by (nonlinear_arith);
                assert((c + 1) * (isize::MAX as int) == c * (isize::MAX as int) + (
                isize::MAX as int)) by (nonlinear_arith);
            },
            Option::None => {
                assert(fitness_present_count(s) == c);
                assert(fitness_sum(s) == sum);
            },
        }
    }
}

} // verus!
