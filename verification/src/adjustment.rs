//! Multiple-testing adjustment of p-values.
//!
//! The adjustment works on results in ascending order of their raw p-values.
//! For the result at position `k` (counted from zero) among `m`, the caller
//! supplies the candidate: `p * m` for Bonferroni, `p * m / (k + 1)` for
//! Benjamini-Hochberg, and that times the harmonic sum `1 + 1/2 + .. + 1/m`
//! for Benjamini-Yekutieli. `m` is the number of results handed over. This
//! module turns candidates into adjusted p-values: it caps them at one and,
//! for the two step-up methods, takes the running minimum from the largest
//! rank down.

use crate::correlation::{views, CorResult, CorResultView};
use crate::double::{Double, ONE_BITS};
use crate::error::AnalysisError;
use vstd::prelude::*;

verus! {

/// The three adjustment methods.
#[derive(Clone, Copy, Debug, PartialEq, Eq, Structural)]
pub enum AdjustmentMethod {
    BenjaminiHochberg,
    BenjaminiYekutieli,
    Bonferroni,
}

impl AdjustmentMethod {
    /// Whether the method is one of the two step-up procedures.
    pub open spec fn spec_is_step_up(self) -> bool {
        self != AdjustmentMethod::Bonferroni
    }

    #[verifier::when_used_as_spec(spec_is_step_up)]
    pub fn is_step_up(self) -> (r: bool)
        ensures
            r == self.spec_is_step_up(),
    {
        match self {
            AdjustmentMethod::BenjaminiHochberg => true,
            AdjustmentMethod::BenjaminiYekutieli => true,
            AdjustmentMethod::Bonferroni => false,
        }
    }
}

/// The number one.
pub open spec fn one() -> Double {
    Double { bits: ONE_BITS }
}

/// A candidate is a number that is not negative. It may exceed one.
pub open spec fn is_candidate(x: Double) -> bool {
    !x.spec_is_nan() && x.rank() >= 0
}

/// The smaller of one and `x`.
pub open spec fn capped(x: Double) -> Double {
    one().spec_min(x)
}

/// The least of one and the candidates from position `from` on.
pub open spec fn running_minimum(candidates: Seq<Double>, from: int) -> Double
    decreases candidates.len() - from,
{
    if from < 0 || from >= candidates.len() {
        one()
    } else {
        candidates[from].spec_min(running_minimum(candidates, from + 1))
    }
}

/// The adjusted p-value at position `at`.
pub open spec fn adjusted_value(
    method: AdjustmentMethod,
    candidates: Seq<Double>,
    at: int,
) -> Double {
    if method.spec_is_step_up() {
        running_minimum(candidates, at)
    } else {
        capped(candidates[at])
    }
}

/// The results with their adjusted p-values set.
pub open spec fn adjusted(
    method: AdjustmentMethod,
    results: Seq<CorResultView>,
    candidates: Seq<Double>,
) -> Seq<CorResultView> {
    Seq::new(
        results.len(),
        |i: int| results[i].with_adjusted(adjusted_value(method, candidates, i)),
    )
}

/// Whether the raw p-values never decrease along the sequence.
pub open spec fn ascending_by_p_value(results: Seq<CorResultView>) -> bool {
    forall|i: int, j: int|
        0 <= i < j < results.len() ==> (#[trigger] results[i]).p_value->0.spec_le(
            (#[trigger] results[j]).p_value->0,
        )
}

/// Whether every result is an evaluated one.
pub open spec fn all_evaluated(results: Seq<CorResultView>) -> bool {
    forall|i: int| 0 <= i < results.len() ==> (#[trigger] results[i]).is_evaluated()
}

/// Whether every candidate is a number that is not negative.
pub open spec fn all_candidates(candidates: Seq<Double>) -> bool {
    forall|i: int| 0 <= i < candidates.len() ==> is_candidate(#[trigger] candidates[i])
}

/// Why results and candidates cannot be adjusted, if they cannot.
pub open spec fn adjustment_error(
    results: Seq<CorResultView>,
    candidates: Seq<Double>,
) -> Option<AnalysisError> {
    if results.len() != candidates.len() {
        Some(AnalysisError::CandidateCountMismatch)
    } else if !all_evaluated(results) || !all_candidates(candidates) {
        Some(AnalysisError::UndefinedStatistic)
    } else if !ascending_by_p_value(results) {
        Some(AnalysisError::UnsortedResults)
    } else {
        None
    }
}

/// The running minimum of candidates lies between zero and one, is at most
/// every candidate from its position on, and is at most the running minimum
/// of the next position.
pub proof fn lemma_running_minimum_bounds(candidates: Seq<Double>, from: int)
    requires
        all_candidates(candidates),
        0 <= from <= candidates.len(),
    ensures
        running_minimum(candidates, from).spec_is_probability(),
        forall|k: int|
            from <= k < candidates.len() ==> running_minimum(candidates, from).spec_le(
                #[trigger] candidates[k],
            ),
        running_minimum(candidates, from).spec_le(running_minimum(candidates, from + 1)),
    decreases candidates.len() - from,
{
    if from < candidates.len() {
        lemma_running_minimum_bounds(candidates, from + 1);
    }
}

/// The running minimum is one of the values it is taken over: one, or a
/// candidate from its position on.
pub proof fn lemma_running_minimum_attained(candidates: Seq<Double>, from: int)
    requires
        0 <= from <= candidates.len(),
    ensures
        running_minimum(candidates, from) == one() || exists|k: int|
            from <= k < candidates.len() && running_minimum(candidates, from)
                == #[trigger] candidates[k],
    decreases candidates.len() - from,
{
    if from < candidates.len() {
        lemma_running_minimum_attained(candidates, from + 1);
        let next = running_minimum(candidates, from + 1);
        if running_minimum(candidates, from) == candidates[from] {
        } else if next != one() {
            let k = choose|k: int|
                from + 1 <= k < candidates.len() && next == #[trigger] candidates[k];
            assert(from <= k < candidates.len());
            assert(running_minimum(candidates, from) == candidates[k]);
        }
    }
}

/// Step-up adjusted p-values never decrease as the raw p-value increases, and
/// none of them exceeds one.
pub proof fn lemma_step_up_monotone(candidates: Seq<Double>, i: int, j: int)
    requires
        all_candidates(candidates),
        0 <= i <= j < candidates.len(),
    ensures
        running_minimum(candidates, i).spec_le(running_minimum(candidates, j)),
        running_minimum(candidates, j).spec_le(one()),
    decreases j - i,
{
    lemma_running_minimum_bounds(candidates, j);
    if i < j {
        lemma_running_minimum_bounds(candidates, i);
        lemma_step_up_monotone(candidates, i + 1, j);
    }
}

/// The smaller of one and `x`.
pub fn cap(x: Double) -> (r: Double)
    ensures
        r == capped(x),
{
    Double::one().min(x)
}

/// Sets the adjusted p-value of every result.
///
/// `results` are in ascending order of their raw p-values and `candidates`
/// holds one candidate for each of them, in the same order. Bonferroni caps
/// each candidate at one. The step-up methods give each result the least of
/// one and the candidates from its own position on, so that the adjusted
/// p-values never decrease along the sequence. No results give no results.
pub fn adjust(method: AdjustmentMethod, results: Vec<CorResult>, candidates: &Vec<Double>) -> (r:
    Result<Vec<CorResult>, AnalysisError>)
    ensures
        match adjustment_error(views(results@), candidates@) {
            Some(error) => r == Err::<Vec<CorResult>, AnalysisError>(error),
            None => r is Ok && views(r->Ok_0@) == adjusted(method, views(results@), candidates@),
        },
        r is Ok ==> forall|i: int|
            0 <= i < r->Ok_0@.len() ==> (#[trigger] r->Ok_0@[i])@.is_evaluated(),
        r is Ok && method.spec_is_step_up() ==> forall|i: int, j: int|
            0 <= i <= j < r->Ok_0@.len() ==> (#[trigger] r->Ok_0@[i]).adjusted_p_value->0.spec_le(
                (#[trigger] r->Ok_0@[j]).adjusted_p_value->0,
            ),
{
    let ghost before = views(results@);
    let n = results.len();
    if candidates.len() != n {
        return Err(AnalysisError::CandidateCountMismatch);
    }
    let mut i: usize = 0;
    while i < n
        invariant
            i <= n,
            n == results@.len(),
            n == candidates@.len(),
            before == views(results@),
            forall|k: int| 0 <= k < i ==> (#[trigger] before[k]).is_evaluated(),
            forall|k: int| 0 <= k < i ==> is_candidate(#[trigger] candidates@[k]),
        decreases n - i,
    {
        let candidate = candidates[i];
        assert(before[i as int] == results@[i as int]@);
        if !results[i].is_evaluated() {
            assert(!all_evaluated(before));
            return Err(AnalysisError::UndefinedStatistic);
        }
        if !Double::zero().le(candidate) {
            assert(!is_candidate(candidates@[i as int]));
            assert(!all_candidates(candidates@));
            return Err(AnalysisError::UndefinedStatistic);
        }
        i += 1;
    }
    assert(all_evaluated(before));
    assert(all_candidates(candidates@));
    let mut i: usize = 1;
    while i < n
        invariant
            1 <= i,
            n == results@.len(),
            n == candidates@.len(),
            before == views(results@),
            all_evaluated(before),
            all_candidates(candidates@),
            forall|a: int, b: int|
                0 <= a < b < i && b < n ==> (#[trigger] before[a]).p_value->0.spec_le(
                    (#[trigger] before[b]).p_value->0,
                ),
        decreases n - i,
    {
        assert(before[i - 1] == results@[i - 1]@);
        assert(before[i as int] == results@[i as int]@);
        let ordered = match (results[i - 1].p_value, results[i].p_value) {
            (Some(lower), Some(upper)) => lower.le(upper),
            _ => false,
        };
        if !ordered {
            assert(!before[i - 1].p_value->0.spec_le(before[i as int].p_value->0));
            assert(!ascending_by_p_value(before));
            return Err(AnalysisError::UnsortedResults);
        }
        assert forall|a: int, b: int| 0 <= a < b < i + 1 && b < n implies (
        #[trigger] before[a]).p_value->0.spec_le((#[trigger] before[b]).p_value->0) by {
            if b == i && a < i - 1 {
                assert(before[a].p_value->0.spec_le(before[i - 1].p_value->0));
            }
        }
        i += 1;
    }
    assert(ascending_by_p_value(before));
    let mut results = results;
    let step_up = method.is_step_up();
    let mut current = Double::one();
    let mut i: usize = n;
    while i > 0
        invariant
            i <= n,
            n == results@.len(),
            n == candidates@.len(),
            n == before.len(),
            step_up == method.spec_is_step_up(),
            current == running_minimum(candidates@, i as int),
            forall|k: int| 0 <= k < i ==> (#[trigger] results@[k])@ == before[k],
            forall|k: int|
                i <= k < n ==> (#[trigger] results@[k])@ == before[k].with_adjusted(
                    adjusted_value(method, candidates@, k),
                ),
        decreases i,
    {
        i -= 1;
        current = candidates[i].min(current);
        let value = if step_up {
            current
        } else {
            cap(candidates[i])
        };
        results[i].adjusted_p_value = Some(value);
    }
    proof {
        assert(views(results@) =~= adjusted(method, before, candidates@));
        assert forall|k: int| 0 <= k < n implies (#[trigger] results@[k])@.is_evaluated() by {
            lemma_running_minimum_bounds(candidates@, k);
            assert(before[k].is_evaluated());
        }
        if step_up {
            assert forall|a: int, b: int| 0 <= a <= b < n implies (
            #[trigger] results@[a]).adjusted_p_value->0.spec_le(
                (#[trigger] results@[b]).adjusted_p_value->0,
            ) by {
                lemma_step_up_monotone(candidates@, a, b);
            }
        }
    }
    Ok(results)
}

} // verus!
