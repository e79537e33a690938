//! The ways in which an analysis run fails.

use vstd::prelude::*;

verus! {

/// The three families of failure. Each of them aborts the run: no partial
/// result list is handed out.
#[derive(Clone, Copy, Debug, PartialEq, Eq, Structural)]
pub enum ErrorKind {
    /// The run was set up wrongly; nothing has been computed yet.
    Configuration,
    /// A correlation strategy gave no defined statistic.
    Computation,
    /// Spill storage or the encoding of spilled results failed.
    Resource,
}

#[derive(Clone, Copy, Debug, PartialEq, Eq, Structural)]
pub enum AnalysisError {
    /// Two paired vectors differ in length, or a vector's length is not the
    /// sample count the strategy was made for.
    SampleCountMismatch,
    /// Too few samples: the degrees of freedom would not be positive.
    InsufficientSamples,
    /// The number of adjustment candidates is not the number of results.
    CandidateCountMismatch,
    /// A statistic, p-value or adjustment candidate is absent, a NaN or
    /// outside its range.
    UndefinedStatistic,
    /// The results handed to the adjustment are not in ascending order of
    /// their raw p-values.
    UnsortedResults,
    /// Bytes that are not the encoding of a result.
    MalformedEncoding,
}

impl AnalysisError {
    pub open spec fn spec_kind(self) -> ErrorKind {
        match self {
            AnalysisError::SampleCountMismatch => ErrorKind::Configuration,
            AnalysisError::InsufficientSamples => ErrorKind::Configuration,
            AnalysisError::CandidateCountMismatch => ErrorKind::Configuration,
            AnalysisError::UndefinedStatistic => ErrorKind::Computation,
            AnalysisError::UnsortedResults => ErrorKind::Resource,
            AnalysisError::MalformedEncoding => ErrorKind::Resource,
        }
    }

    /// The family this failure belongs to.
    #[verifier::when_used_as_spec(spec_kind)]
    pub fn kind(self) -> (r: ErrorKind)
        ensures
            r == self.spec_kind(),
    {
        match self {
            AnalysisError::SampleCountMismatch => ErrorKind::Configuration,
            AnalysisError::InsufficientSamples => ErrorKind::Configuration,
            AnalysisError::CandidateCountMismatch => ErrorKind::Configuration,
            AnalysisError::UndefinedStatistic => ErrorKind::Computation,
            AnalysisError::UnsortedResults => ErrorKind::Resource,
            AnalysisError::MalformedEncoding => ErrorKind::Resource,
        }
    }
}

} // verus!
