//! Correlation analysis between gene expression series and gene expression
//! modulator (GEM) series: the rules that turn evaluated combinations into an
//! ordered, significance-adjusted result list.
//!
//! Numbers that the analysis produces are IEEE 754 doubles. They travel through
//! this crate as bit patterns ([`double::Double`]), on which ordering, absolute
//! value and range checks are exact integer questions. Arithmetic on doubles is
//! the caller's: the correlation statistics, their p-values and the candidates
//! that the adjustment starts from.
//!
//! - [`combination`] goes through the pairs of a gene and a GEM.
//! - [`correlation`] holds the results and the choice of a strategy.
//! - [`analysis`] holds results to the correlation threshold, counts them and
//!   concludes a run.
//! - [`adjustment`] turns candidates into adjusted p-values.
//! - [`selection`] keeps the strongest results.
//! - [`encoding`], [`reading`] and [`state`] write results as bytes and read
//!   them back.

pub mod adjustment;
pub mod analysis;
pub mod combination;
pub mod correlation;
pub mod double;
pub mod encoding;
pub mod error;
pub mod reading;
pub mod selection;
pub mod state;
