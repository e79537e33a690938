//! An analysis run: its configuration, the threshold on the correlation, and
//! the steps from the sorted results to the final result list.
//!
//! [`AnalysisConfig::begin`] checks the configuration. The caller then
//! evaluates each combination, makes a [`CorResult`] of it and hands it to
//! [`AnalysisConfig::screen`], which counts it and says whether it meets the
//! threshold. The results that do are sorted by their raw p-values, on disk if
//! need be, and handed to [`AnalysisConfig::conclude`] together with their
//! adjustment candidates.
//!
//! Every failure ends the run: a statistic that is not defined is not
//! skipped, and no part of the results is handed out after an error. The
//! number of tests that the adjustment corrects for is the number of results
//! that met the threshold.

use crate::adjustment::{adjust, adjusted, adjustment_error, AdjustmentMethod};
use crate::combination::{CombinationGenerator, PairingMode};
use crate::correlation::{
    get_correlation_method, views, CorResult, CorResultView, Correlation, CorrelationMethod,
};
use crate::double::Double;
use crate::error::AnalysisError;
use crate::selection::{keep_top_n, top_n};
use vstd::prelude::*;

verus! {

/// What an analysis run is set up with.
#[derive(Clone, Copy, Debug)]
pub struct AnalysisConfig {
    pub correlation_method: CorrelationMethod,
    pub adjustment_method: AdjustmentMethod,
    /// Least absolute value of the correlation that a result must have.
    pub correlation_threshold: Double,
    pub pairing_mode: PairingMode,
    /// Keep only this many of the strongest results, if set.
    pub keep_top_n: Option<usize>,
    /// Number of results that are sorted in memory before they are spilled.
    pub sort_buf_size: usize,
    /// Whether each row of the GEM dataset carries a CpG site identifier.
    pub gem_contains_cpg: bool,
}

/// Counts of the combinations that were evaluated and of those that met the
/// threshold.
#[derive(Clone, Copy, Debug)]
pub struct Tally {
    total: u64,
    passed: u64,
}

/// What a run works with once its configuration has been checked: the
/// correlation strategy, the combinations to evaluate and the counts.
#[derive(Clone, Copy, Debug)]
pub struct Run {
    pub strategy: Correlation,
    pub generator: CombinationGenerator,
    pub tally: Tally,
}

/// The order of the final results.
#[derive(Clone, Copy, Debug, PartialEq, Eq, Structural)]
pub enum ResultOrder {
    /// Ascending raw p-value.
    AscendingPValue,
    /// Strongest correlation first.
    DescendingStrength,
}

/// What an analysis run gives back.
#[derive(Debug)]
pub struct AnalysisOutcome {
    pub results: Vec<CorResult>,
    pub order: ResultOrder,
    /// Number of combinations that were evaluated.
    pub total_combinations: u64,
    /// Number of combinations that met the threshold.
    pub passed: u64,
}

/// Whether a result's correlation is at least as strong as the threshold.
pub open spec fn meets_threshold(result: CorResultView, threshold: Double) -> bool
    recommends
        result.correlation is Some,
{
    threshold.spec_le(result.strength())
}

/// The results that meet the threshold, in their order.
pub open spec fn meeting_threshold(
    results: Seq<CorResultView>,
    threshold: Double,
) -> Seq<CorResultView>
    decreases results.len(),
{
    if results.len() == 0 {
        Seq::empty()
    } else if meets_threshold(results.last(), threshold) {
        meeting_threshold(results.drop_last(), threshold).push(results.last())
    } else {
        meeting_threshold(results.drop_last(), threshold)
    }
}

/// The final results: adjusted, then held to the threshold, then cut down to
/// the strongest where a number to keep is set.
pub open spec fn concluded(
    config: AnalysisConfig,
    results: Seq<CorResultView>,
    candidates: Seq<Double>,
) -> Seq<CorResultView> {
    let kept = meeting_threshold(
        adjusted(config.adjustment_method, results, candidates),
        config.correlation_threshold,
    );
    match config.keep_top_n {
        Some(n) => top_n(kept, n as nat),
        None => kept,
    }
}

/// Where all results meet the threshold, all of them are kept.
pub proof fn lemma_meeting_threshold_all(results: Seq<CorResultView>, threshold: Double)
    requires
        forall|i: int| 0 <= i < results.len() ==> meets_threshold(#[trigger] results[i], threshold),
    ensures
        meeting_threshold(results, threshold) == results,
    decreases results.len(),
{
    if results.len() > 0 {
        assert forall|i: int| 0 <= i < results.drop_last().len() implies meets_threshold(
            #[trigger] results.drop_last()[i],
            threshold,
        ) by {
            assert(results.drop_last()[i] == results[i]);
        }
        lemma_meeting_threshold_all(results.drop_last(), threshold);
        assert(results.drop_last().push(results.last()) =~= results);
    } else {
        assert(results =~= Seq::empty());
    }
}

/// Results that all met the threshold before the adjustment are all kept
/// after it: the adjustment leaves the correlation as it is.
pub proof fn lemma_adjustment_keeps_threshold(
    method: AdjustmentMethod,
    results: Seq<CorResultView>,
    candidates: Seq<Double>,
    threshold: Double,
)
    requires
        forall|i: int| 0 <= i < results.len() ==> meets_threshold(#[trigger] results[i], threshold),
    ensures
        meeting_threshold(adjusted(method, results, candidates), threshold) == adjusted(
            method,
            results,
            candidates,
        ),
{
    let after = adjusted(method, results, candidates);
    assert forall|i: int| 0 <= i < after.len() implies meets_threshold(
        #[trigger] after[i],
        threshold,
    ) by {
        assert(meets_threshold(results[i], threshold));
    }
    lemma_meeting_threshold_all(after, threshold);
}

impl Tally {
    #[verifier::type_invariant]
    spec fn well_formed(self) -> bool {
        self.passed <= self.total
    }

    pub closed spec fn spec_total(self) -> u64 {
        self.total
    }

    pub closed spec fn spec_passed(self) -> u64 {
        self.passed
    }

    /// A tally of nothing.
    pub fn new() -> (r: Tally)
        ensures
            r.spec_total() == 0,
            r.spec_passed() == 0,
    {
        Tally { total: 0, passed: 0 }
    }

    /// Number of combinations that were evaluated.
    #[verifier::when_used_as_spec(spec_total)]
    pub fn total(self) -> (r: u64)
        ensures
            r == self.spec_total(),
    {
        self.total
    }

    /// Number of combinations that met the threshold; never more than the total.
    #[verifier::when_used_as_spec(spec_passed)]
    pub fn passed(self) -> (r: u64)
        ensures
            r == self.spec_passed(),
            r <= self.spec_total(),
    {
        proof {
            use_type_invariant(self);
        }
        self.passed
    }
}

impl AnalysisConfig {
    /// Checks the configuration against the datasets before anything is
    /// computed: `genes` and `gems` are the numbers of rows of the two
    /// datasets and `number_of_samples` the length of each row. Pearson and
    /// Spearman need three samples at least.
    pub fn begin(&self, genes: usize, gems: usize, number_of_samples: usize) -> (r: Result<
        Run,
        AnalysisError,
    >)
        ensures
            r is Ok <==> self.correlation_method == CorrelationMethod::Kendall
                || number_of_samples >= 3,
            r is Err ==> r->Err_0 == AnalysisError::InsufficientSamples,
            r is Ok ==> {
                let run = r->Ok_0;
                &&& run.strategy.spec_method() == self.correlation_method
                &&& match run.strategy {
                    Correlation::Pearson(pearson) => pearson.samples() == number_of_samples,
                    Correlation::Spearman(spearman) => spearman.samples() == number_of_samples,
                    Correlation::Kendall(_) => true,
                }
                &&& run.generator.mode() == self.pairing_mode
                &&& run.generator.genes() == genes
                &&& run.generator.gems() == gems
                &&& run.generator.emitted() == 0
                &&& run.tally.spec_total() == 0
                &&& run.tally.spec_passed() == 0
            },
    {
        match get_correlation_method(&self.correlation_method, number_of_samples) {
            Ok(strategy) => Ok(
                Run {
                    strategy,
                    generator: CombinationGenerator::new(self.pairing_mode, genes, gems),
                    tally: Tally::new(),
                },
            ),
            Err(error) => Err(error),
        }
    }

    /// Whether a result meets the threshold: whether the absolute value of its
    /// correlation is at least the threshold.
    pub fn passes_threshold(&self, result: &CorResult) -> (r: bool)
        requires
            result.correlation is Some,
        ensures
            r == meets_threshold(result@, self.correlation_threshold),
    {
        self.correlation_threshold.le(result.abs_correlation())
    }

    /// Counts an evaluated combination and hands its result back if it meets
    /// the threshold. A result that does not is dropped: it counts towards the
    /// total and not towards those that passed.
    pub fn screen(&self, tally: &mut Tally, result: CorResult) -> (r: Option<CorResult>)
        requires
            result.correlation is Some,
            old(tally).spec_total() < u64::MAX,
        ensures
            final(tally).spec_total() == old(tally).spec_total() + 1,
            meets_threshold(result@, self.correlation_threshold) ==> r == Some(result)
                && final(tally).spec_passed() == old(tally).spec_passed() + 1,
            !meets_threshold(result@, self.correlation_threshold) ==> r is None
                && final(tally).spec_passed() == old(tally).spec_passed(),
    {
        proof {
            use_type_invariant(&*tally);
        }
        if self.passes_threshold(&result) {
            *tally = Tally { total: tally.total + 1, passed: tally.passed + 1 };
            Some(result)
        } else {
            *tally = Tally { total: tally.total + 1, passed: tally.passed };
            None
        }
    }

    /// The results that meet the threshold, in their order.
    pub fn filter_by_threshold(&self, results: Vec<CorResult>) -> (kept: Vec<CorResult>)
        requires
            forall|i: int| 0 <= i < results@.len() ==> (#[trigger] results@[i]).correlation is Some,
        ensures
            views(kept@) == meeting_threshold(views(results@), self.correlation_threshold),
            forall|k: int|
                0 <= k < kept@.len() ==> meets_threshold(
                    (#[trigger] kept@[k])@,
                    self.correlation_threshold,
                ) && exists|i: int|
                    0 <= i < results@.len() && kept@[k]@ == (#[trigger] results@[i])@,
    {
        let ghost all = views(results@);
        let mut i: usize = 0;
        while i < results.len() && self.passes_threshold(&results[i])
            invariant
                i <= results@.len(),
                all == views(results@),
                forall|k: int|
                    0 <= k < results@.len() ==> (#[trigger] results@[k]).correlation is Some,
                forall|k: int|
                    0 <= k < i ==> meets_threshold(
                        #[trigger] all[k],
                        self.correlation_threshold,
                    ),
            decreases results@.len() - i,
        {
            i += 1;
        }
        if i == results.len() {
            proof {
                lemma_meeting_threshold_all(all, self.correlation_threshold);
                assert forall|k: int| 0 <= k < results@.len() implies meets_threshold(
                    (#[trigger] results@[k])@,
                    self.correlation_threshold,
                ) && exists|j: int|
                    0 <= j < results@.len() && results@[k]@ == (#[trigger] results@[j])@ by {
                    assert(all[k] == results@[k]@);
                }
            }
            return results;
        }
        let mut kept: Vec<CorResult> = Vec::new();
        let mut i: usize = 0;
        while i < results.len()
            invariant
                i <= results@.len(),
                all == views(results@),
                forall|k: int|
                    0 <= k < results@.len() ==> (#[trigger] results@[k]).correlation is Some,
                views(kept@) == meeting_threshold(all.take(i as int), self.correlation_threshold),
                forall|k: int|
                    0 <= k < kept@.len() ==> meets_threshold(
                        (#[trigger] kept@[k])@,
                        self.correlation_threshold,
                    ) && exists|j: int|
                        0 <= j < results@.len() && kept@[k]@ == (#[trigger] results@[j])@,
            decreases results@.len() - i,
        {
            proof {
                assert(all.take(i + 1).drop_last() =~= all.take(i as int));
                assert(all.take(i + 1).last() == results@[i as int]@);
            }
            if self.passes_threshold(&results[i]) {
                let ghost before = views(kept@);
                kept.push(results[i].clone());
                assert(views(kept@) =~= before.push(results@[i as int]@));
            }
            i += 1;
        }
        proof {
            assert(all.take(i as int) =~= all);
        }
        kept
    }

    /// Turns the sorted results into the final result list.
    ///
    /// `results` are the results that were kept, in ascending order of their
    /// raw p-values, and `candidates` their adjustment candidates in the same
    /// order. The results get their adjusted p-values, are held to the
    /// threshold once more and, where a number to keep is set, cut down to
    /// that many of the strongest. On an error nothing is handed out.
    pub fn conclude(&self, tally: &Tally, results: Vec<CorResult>, candidates: &Vec<Double>) -> (r:
        Result<AnalysisOutcome, AnalysisError>)
        ensures
            match adjustment_error(views(results@), candidates@) {
                Some(error) => r is Err && r->Err_0 == error,
                None => r is Ok && views(r->Ok_0.results@) == concluded(
                    *self,
                    views(results@),
                    candidates@,
                ),
            },
            r is Ok ==> r->Ok_0.total_combinations == tally.spec_total() && r->Ok_0.passed
                == tally.spec_passed(),
            r is Ok ==> r->Ok_0.order == (if self.keep_top_n is Some {
                ResultOrder::DescendingStrength
            } else {
                ResultOrder::AscendingPValue
            }),
            r is Ok ==> forall|i: int|
                0 <= i < r->Ok_0.results@.len() ==> (#[trigger] r->Ok_0.results@[i])@.is_evaluated()
                    && meets_threshold(r->Ok_0.results@[i]@, self.correlation_threshold),
    {
        let adjusted = match adjust(self.adjustment_method, results, candidates) {
            Ok(adjusted) => adjusted,
            Err(error) => { return Err(error); },
        };
        let kept = self.filter_by_threshold(adjusted);
        let (results, order) = match self.keep_top_n {
            Some(n) => (keep_top_n(&kept, n), ResultOrder::DescendingStrength),
            None => (kept, ResultOrder::AscendingPValue),
        };
        Ok(
            AnalysisOutcome {
                results,
                order,
                total_combinations: tally.total(),
                passed: tally.passed(),
            },
        )
    }
}

} // verus!
