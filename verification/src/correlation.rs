//! Correlation results and the choice of a correlation strategy.

use crate::double::Double;
use crate::error::AnalysisError;
use core::cmp::Ordering;
use vstd::prelude::*;

verus! {

/// Result of one evaluated combination: gene, GEM, CpG site (if the GEM
/// dataset is annotated), correlation statistic, p-value and adjusted p-value.
#[derive(Debug, PartialEq, Eq)]
pub struct CorResult {
    /// Gene name
    pub gene: String,
    /// Gene Expression Modulator (GEM) name
    pub gem: String,
    /// CpG Site ID
    pub cpg_site_id: Option<String>,
    /// Correlation statistic (Pearson, Spearman or Kendall, as selected)
    pub correlation: Option<Double>,
    /// P-value
    pub p_value: Option<Double>,
    /// Adjusted p-value (Benjamini-Hochberg, Benjamini-Yekutieli or Bonferroni, as selected)
    pub adjusted_p_value: Option<Double>,
}

/// What a [`CorResult`] holds, with the identifiers as character sequences.
pub struct CorResultView {
    pub gene: Seq<char>,
    pub gem: Seq<char>,
    pub cpg_site_id: Option<Seq<char>>,
    pub correlation: Option<Double>,
    pub p_value: Option<Double>,
    pub adjusted_p_value: Option<Double>,
}

impl CorResultView {
    /// The placeholder: empty identifiers and no numbers.
    pub open spec fn empty() -> CorResultView {
        CorResultView {
            gene: Seq::empty(),
            gem: Seq::empty(),
            cpg_site_id: None,
            correlation: None,
            p_value: None,
            adjusted_p_value: None,
        }
    }

    /// The CpG site identifier, or the empty text where there is none.
    pub open spec fn cpg_site_id_description(self) -> Seq<char> {
        match self.cpg_site_id {
            Some(cpg) => cpg,
            None => Seq::empty(),
        }
    }

    /// A result as the pipeline carries it: all three numbers present, the
    /// statistic between minus one and one, both p-values between zero and one.
    pub open spec fn is_evaluated(self) -> bool {
        &&& self.correlation is Some
        &&& self.correlation->0.spec_is_coefficient()
        &&& self.p_value is Some
        &&& self.p_value->0.spec_is_probability()
        &&& self.adjusted_p_value is Some
        &&& self.adjusted_p_value->0.spec_is_probability()
    }

    /// Strength of the correlation: the absolute value of the statistic.
    pub open spec fn strength(self) -> Double
        recommends
            self.correlation is Some,
    {
        self.correlation->0.spec_abs()
    }

    /// The same result with another adjusted p-value.
    pub open spec fn with_adjusted(self, adjusted: Double) -> CorResultView {
        CorResultView { adjusted_p_value: Some(adjusted), ..self }
    }
}

/// The views of a sequence of results, in the same order.
pub open spec fn views(results: Seq<CorResult>) -> Seq<CorResultView> {
    Seq::new(results.len(), |i: int| results[i]@)
}

impl View for CorResult {
    type V = CorResultView;

    open spec fn view(&self) -> CorResultView {
        CorResultView {
            gene: self.gene@,
            gem: self.gem@,
            cpg_site_id: match self.cpg_site_id {
                Some(cpg) => Some(cpg@),
                None => None,
            },
            correlation: self.correlation,
            p_value: self.p_value,
            adjusted_p_value: self.adjusted_p_value,
        }
    }
}

impl Clone for CorResult {
    fn clone(&self) -> (r: Self)
        ensures
            r == *self,
    {
        let cpg_site_id = match &self.cpg_site_id {
            Some(cpg) => Some(cpg.clone()),
            None => None,
        };
        CorResult {
            gene: self.gene.clone(),
            gem: self.gem.clone(),
            cpg_site_id,
            correlation: self.correlation,
            p_value: self.p_value,
            adjusted_p_value: self.adjusted_p_value,
        }
    }
}

impl CorResult {
    /// A result made of the six given fields.
    pub fn new(
        gene: String,
        gem: String,
        cpg_site_id: Option<String>,
        correlation: Option<Double>,
        p_value: Option<Double>,
        adjusted_p_value: Option<Double>,
    ) -> (r: CorResult)
        ensures
            r == (CorResult { gene, gem, cpg_site_id, correlation, p_value, adjusted_p_value }),
    {
        CorResult { gene, gem, cpg_site_id, correlation, p_value, adjusted_p_value }
    }

    /// The placeholder result: empty identifiers and no numbers.
    pub fn empty() -> (r: CorResult)
        ensures
            r@ == CorResultView::empty(),
    {
        CorResult {
            gene: String::new(),
            gem: String::new(),
            cpg_site_id: None,
            correlation: None,
            p_value: None,
            adjusted_p_value: None,
        }
    }

    /// The result of one evaluated combination. The statistic has to lie
    /// between minus one and one and the p-value between zero and one; a NaN
    /// lies in neither range. Until the adjustment has run, the adjusted
    /// p-value is the raw one.
    pub fn evaluated(
        gene: String,
        gem: String,
        cpg_site_id: Option<String>,
        statistic: Double,
        p_value: Double,
    ) -> (r: Result<CorResult, AnalysisError>)
        ensures
            r is Ok <==> statistic.spec_is_coefficient() && p_value.spec_is_probability(),
            r is Ok ==> r->Ok_0 == (CorResult {
                gene,
                gem,
                cpg_site_id,
                correlation: Some(statistic),
                p_value: Some(p_value),
                adjusted_p_value: Some(p_value),
            }) && r->Ok_0@.is_evaluated(),
            r is Err ==> r->Err_0 == AnalysisError::UndefinedStatistic,
    {
        if statistic.is_coefficient() && p_value.is_probability() {
            Ok(
                CorResult {
                    gene,
                    gem,
                    cpg_site_id,
                    correlation: Some(statistic),
                    p_value: Some(p_value),
                    adjusted_p_value: Some(p_value),
                },
            )
        } else {
            Err(AnalysisError::UndefinedStatistic)
        }
    }

    /// Whether this is a result as the pipeline carries it.
    pub fn is_evaluated(&self) -> (r: bool)
        ensures
            r == self@.is_evaluated(),
    {
        match (self.correlation, self.p_value, self.adjusted_p_value) {
            (Some(correlation), Some(p_value), Some(adjusted)) => {
                correlation.is_coefficient() && p_value.is_probability()
                    && adjusted.is_probability()
            },
            _ => false,
        }
    }

    /// Returns the CpG Site ID description. Empty text if there is none.
    pub fn cpg_site_id_description(&self) -> (r: &str)
        ensures
            r@ == self@.cpg_site_id_description(),
    {
        match &self.cpg_site_id {
            Some(cpg) => cpg.as_str(),
            None => {
                proof {
                    reveal_strlit("");
                    assert(""@ =~= Seq::<char>::empty());
                }
                ""
            },
        }
    }

    /// The order of two results for sorting: that of their raw p-values. Both
    /// p-values must be present and neither may be a NaN.
    pub fn compare_by_p_value(&self, other: &CorResult) -> (r: Ordering)
        requires
            self.p_value is Some,
            other.p_value is Some,
            !self.p_value->0.spec_is_nan(),
            !other.p_value->0.spec_is_nan(),
        ensures
            r == Ordering::Less <==> self.p_value->0.spec_lt(other.p_value->0),
            r == Ordering::Greater <==> other.p_value->0.spec_lt(self.p_value->0),
    {
        match (self.p_value, other.p_value) {
            (Some(mine), Some(theirs)) => mine.compare_or_greater(theirs),
            _ => Ordering::Equal,
        }
    }

    /// Gets the absolute correlation. The correlation must be present.
    pub fn abs_correlation(&self) -> (r: Double)
        requires
            self.correlation is Some,
        ensures
            r == self@.strength(),
    {
        match self.correlation {
            Some(correlation) => correlation.abs(),
            None => Double::zero(),
        }
    }
}

/// The three correlation methods.
#[derive(Clone, Copy, Debug, PartialEq, Eq, Structural)]
pub enum CorrelationMethod {
    Spearman,
    Kendall,
    Pearson,
}

impl CorrelationMethod {
    /// The number that stands for the method in configuration: Spearman is 1,
    /// Kendall is 2, Pearson is 3.
    pub open spec fn spec_code(self) -> u8 {
        match self {
            CorrelationMethod::Spearman => 1,
            CorrelationMethod::Kendall => 2,
            CorrelationMethod::Pearson => 3,
        }
    }

    pub open spec fn spec_name(self) -> Seq<char> {
        match self {
            CorrelationMethod::Spearman => "Spearman"@,
            CorrelationMethod::Kendall => "Kendall"@,
            CorrelationMethod::Pearson => "Pearson"@,
        }
    }

    #[verifier::when_used_as_spec(spec_code)]
    pub fn code(self) -> (r: u8)
        ensures
            r == self.spec_code(),
    {
        match self {
            CorrelationMethod::Spearman => 1,
            CorrelationMethod::Kendall => 2,
            CorrelationMethod::Pearson => 3,
        }
    }

    /// The method that a number stands for, if it stands for one.
    pub fn from_code(code: u8) -> (r: Option<CorrelationMethod>)
        ensures
            match r {
                Some(method) => method.spec_code() == code,
                None => code < 1 || code > 3,
            },
    {
        if code == 1 {
            Some(CorrelationMethod::Spearman)
        } else if code == 2 {
            Some(CorrelationMethod::Kendall)
        } else if code == 3 {
            Some(CorrelationMethod::Pearson)
        } else {
            None
        }
    }

    /// The method's name.
    pub fn to_string(&self) -> (r: String)
        ensures
            r@ == self.spec_name(),
    {
        let description = match self {
            CorrelationMethod::Spearman => "Spearman",
            CorrelationMethod::Kendall => "Kendall",
            CorrelationMethod::Pearson => "Pearson",
        };
        description.to_owned()
    }
}

/// Pearson's product-moment correlation, tested with a Student t distribution
/// of `n - 2` degrees of freedom.
#[derive(Clone, Copy, Debug, PartialEq, Eq)]
pub struct Pearson {
    n: usize,
    degrees_of_freedom: usize,
}

impl Pearson {
    #[verifier::type_invariant]
    spec fn well_formed(self) -> bool {
        self.n >= 3 && self.degrees_of_freedom == self.n - 2
    }

    /// The number of samples in each vector.
    pub closed spec fn samples(self) -> nat {
        self.n as nat
    }

    pub fn new(n: usize) -> (r: Result<Pearson, AnalysisError>)
        ensures
            r is Ok <==> n >= 3,
            r is Ok ==> r->Ok_0.samples() == n,
            r is Err ==> r->Err_0 == AnalysisError::InsufficientSamples,
    {
        if n >= 3 {
            Ok(Pearson { n, degrees_of_freedom: n - 2 })
        } else {
            Err(AnalysisError::InsufficientSamples)
        }
    }

    pub fn n(&self) -> (r: usize)
        ensures
            r == self.samples(),
            r >= 3,
    {
        proof {
            use_type_invariant(self);
        }
        self.n
    }

    pub fn degrees_of_freedom(&self) -> (r: usize)
        ensures
            r == self.samples() - 2,
            r >= 1,
    {
        proof {
            use_type_invariant(self);
        }
        self.degrees_of_freedom
    }
}

/// Spearman's rank correlation, tested like Pearson's on the ranked samples.
#[derive(Clone, Copy, Debug, PartialEq, Eq)]
pub struct Spearman {
    n: usize,
    degrees_of_freedom: usize,
}

impl Spearman {
    #[verifier::type_invariant]
    spec fn well_formed(self) -> bool {
        self.n >= 3 && self.degrees_of_freedom == self.n - 2
    }

    /// The number of samples in each vector.
    pub closed spec fn samples(self) -> nat {
        self.n as nat
    }

    pub fn new(n: usize) -> (r: Result<Spearman, AnalysisError>)
        ensures
            r is Ok <==> n >= 3,
            r is Ok ==> r->Ok_0.samples() == n,
            r is Err ==> r->Err_0 == AnalysisError::InsufficientSamples,
    {
        if n >= 3 {
            Ok(Spearman { n, degrees_of_freedom: n - 2 })
        } else {
            Err(AnalysisError::InsufficientSamples)
        }
    }

    pub fn n(&self) -> (r: usize)
        ensures
            r == self.samples(),
            r >= 3,
    {
        proof {
            use_type_invariant(self);
        }
        self.n
    }

    pub fn degrees_of_freedom(&self) -> (r: usize)
        ensures
            r == self.samples() - 2,
            r >= 1,
    {
        proof {
            use_type_invariant(self);
        }
        self.degrees_of_freedom
    }
}

/// Kendall's tau-b, tested with the normal approximation of its z-score.
#[derive(Clone, Copy, Debug, PartialEq, Eq)]
pub struct Kendall {}

impl Kendall {
    /// The strategy for vectors of any number of samples.
    pub fn new(_n: usize) -> (r: Kendall)
        ensures
            r == (Kendall {  }),
    {
        Kendall {  }
    }
}

/// A correlation strategy, ready for vectors of one sample count.
#[derive(Clone, Copy, Debug, PartialEq, Eq)]
pub enum Correlation {
    Pearson(Pearson),
    Spearman(Spearman),
    Kendall(Kendall),
}

impl Correlation {
    pub open spec fn spec_method(self) -> CorrelationMethod {
        match self {
            Correlation::Pearson(_) => CorrelationMethod::Pearson,
            Correlation::Spearman(_) => CorrelationMethod::Spearman,
            Correlation::Kendall(_) => CorrelationMethod::Kendall,
        }
    }

    /// Whether the strategy takes a pair of vectors of these two lengths.
    /// Pearson and Spearman take vectors of the sample count they were made
    /// for; Kendall takes any two vectors of one length that is not zero.
    pub open spec fn accepts(self, x_len: nat, y_len: nat) -> bool {
        match self {
            Correlation::Pearson(pearson) => x_len == pearson.samples() && y_len
                == pearson.samples(),
            Correlation::Spearman(spearman) => x_len == spearman.samples() && y_len
                == spearman.samples(),
            Correlation::Kendall(_) => x_len == y_len && x_len > 0,
        }
    }

    /// The method that this strategy carries out.
    #[verifier::when_used_as_spec(spec_method)]
    pub fn method(self) -> (r: CorrelationMethod)
        ensures
            r == self.spec_method(),
    {
        match self {
            Correlation::Pearson(_) => CorrelationMethod::Pearson,
            Correlation::Spearman(_) => CorrelationMethod::Spearman,
            Correlation::Kendall(_) => CorrelationMethod::Kendall,
        }
    }

    /// Checks the lengths of a pair of vectors before they are correlated.
    pub fn check_lengths(&self, x_len: usize, y_len: usize) -> (r: Result<(), AnalysisError>)
        ensures
            r is Ok <==> self.accepts(x_len as nat, y_len as nat),
            r is Err ==> r->Err_0 == (if self.spec_method() == CorrelationMethod::Kendall
                && x_len == y_len {
                AnalysisError::InsufficientSamples
            } else {
                AnalysisError::SampleCountMismatch
            }),
    {
        match self {
            Correlation::Pearson(pearson) => {
                if x_len == pearson.n() && y_len == pearson.n() {
                    Ok(())
                } else {
                    Err(AnalysisError::SampleCountMismatch)
                }
            },
            Correlation::Spearman(spearman) => {
                if x_len == spearman.n() && y_len == spearman.n() {
                    Ok(())
                } else {
                    Err(AnalysisError::SampleCountMismatch)
                }
            },
            Correlation::Kendall(_) => {
                if x_len != y_len {
                    Err(AnalysisError::SampleCountMismatch)
                } else if x_len == 0 {
                    Err(AnalysisError::InsufficientSamples)
                } else {
                    Ok(())
                }
            },
        }
    }
}

/// The strategy for a method and a number of samples. Pearson and Spearman
/// need three samples at least, so that the degrees of freedom are positive.
pub fn get_correlation_method(
    correlation_method: &CorrelationMethod,
    number_of_samples: usize,
) -> (r: Result<Correlation, AnalysisError>)
    ensures
        r is Ok <==> *correlation_method == CorrelationMethod::Kendall || number_of_samples >= 3,
        r is Ok ==> r->Ok_0.spec_method() == *correlation_method,
        r is Ok ==> match r->Ok_0 {
            Correlation::Pearson(pearson) => pearson.samples() == number_of_samples,
            Correlation::Spearman(spearman) => spearman.samples() == number_of_samples,
            Correlation::Kendall(_) => true,
        },
        r is Err ==> r->Err_0 == AnalysisError::InsufficientSamples,
{
    match correlation_method {
        CorrelationMethod::Pearson => match Pearson::new(number_of_samples) {
            Ok(pearson) => Ok(Correlation::Pearson(pearson)),
            Err(e) => Err(e),
        },
        CorrelationMethod::Spearman => match Spearman::new(number_of_samples) {
            Ok(spearman) => Ok(Correlation::Spearman(spearman)),
            Err(e) => Err(e),
        },
        CorrelationMethod::Kendall => Ok(Correlation::Kendall(Kendall::new(number_of_samples))),
    }
}

} // verus!
