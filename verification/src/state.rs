//! The state of a result as six byte strings, one for each field, for hosts
//! that store and restore results field by field.

use crate::correlation::{CorResult, CorResultView};
use crate::encoding::{
    decode_optional_number, decode_optional_text, decode_text, encodable, encode_optional_number,
    encode_optional_text, encode_text, lemma_parse_optional_number_encoding,
    lemma_parse_optional_text_encoding, lemma_parse_text_encoding, optional_number_encoding,
    optional_text_encoding, parse_optional_number, parse_optional_text, parse_text, text_encoding,
};
use crate::error::AnalysisError;
use vstd::prelude::*;

verus! {

/// The six fields of a result, each in its own encoding.
#[derive(Debug, PartialEq, Eq)]
pub struct ResultState {
    pub gene: Vec<u8>,
    pub gem: Vec<u8>,
    pub cpg_site_id: Vec<u8>,
    pub correlation: Vec<u8>,
    pub p_value: Vec<u8>,
    pub adjusted_p_value: Vec<u8>,
}

/// Whether `state` holds the encodings of the fields of `result`.
pub open spec fn state_of(state: ResultState, result: CorResultView) -> bool {
    &&& state.gene@ == text_encoding(result.gene)
    &&& state.gem@ == text_encoding(result.gem)
    &&& state.cpg_site_id@ == optional_text_encoding(result.cpg_site_id)
    &&& state.correlation@ == optional_number_encoding(result.correlation)
    &&& state.p_value@ == optional_number_encoding(result.p_value)
    &&& state.adjusted_p_value@ == optional_number_encoding(result.adjusted_p_value)
}

/// The result that a state restores, if each of its six byte strings starts
/// with the encoding of its field. Bytes behind a field's encoding are
/// ignored.
pub open spec fn restored(state: ResultState) -> Option<CorResultView> {
    match (
        parse_text(state.gene@),
        parse_text(state.gem@),
        parse_optional_text(state.cpg_site_id@),
        parse_optional_number(state.correlation@),
        parse_optional_number(state.p_value@),
        parse_optional_number(state.adjusted_p_value@),
    ) {
        (
            Some((gene, _)),
            Some((gem, _)),
            Some((cpg_site_id, _)),
            Some((correlation, _)),
            Some((p_value, _)),
            Some((adjusted_p_value, _)),
        ) => Some(
            CorResultView { gene, gem, cpg_site_id, correlation, p_value, adjusted_p_value },
        ),
        _ => None,
    }
}

/// The state of a result restores that result.
pub proof fn lemma_state_round_trip(state: ResultState, result: CorResultView)
    requires
        encodable(result),
        state_of(state, result),
    ensures
        restored(state) == Some(result),
{
    let nothing = Seq::<u8>::empty();
    lemma_parse_text_encoding(result.gene, nothing);
    assert(text_encoding(result.gene) + nothing =~= text_encoding(result.gene));
    lemma_parse_text_encoding(result.gem, nothing);
    assert(text_encoding(result.gem) + nothing =~= text_encoding(result.gem));
    lemma_parse_optional_text_encoding(result.cpg_site_id, nothing);
    assert(optional_text_encoding(result.cpg_site_id) + nothing =~= optional_text_encoding(
        result.cpg_site_id,
    ));
    lemma_parse_optional_number_encoding(result.correlation, nothing);
    assert(optional_number_encoding(result.correlation) + nothing =~= optional_number_encoding(
        result.correlation,
    ));
    lemma_parse_optional_number_encoding(result.p_value, nothing);
    assert(optional_number_encoding(result.p_value) + nothing =~= optional_number_encoding(
        result.p_value,
    ));
    lemma_parse_optional_number_encoding(result.adjusted_p_value, nothing);
    assert(optional_number_encoding(result.adjusted_p_value) + nothing
        =~= optional_number_encoding(result.adjusted_p_value));
}

impl CorResult {
    /// The state of this result.
    pub fn get_state(&self) -> (state: ResultState)
        ensures
            state_of(state, self@),
            encodable(self@),
    {
        let mut gene: Vec<u8> = Vec::new();
        encode_text(self.gene.as_str(), &mut gene);
        let mut gem: Vec<u8> = Vec::new();
        encode_text(self.gem.as_str(), &mut gem);
        let mut cpg_site_id: Vec<u8> = Vec::new();
        encode_optional_text(&self.cpg_site_id, &mut cpg_site_id);
        let mut correlation: Vec<u8> = Vec::new();
        encode_optional_number(self.correlation, &mut correlation);
        let mut p_value: Vec<u8> = Vec::new();
        encode_optional_number(self.p_value, &mut p_value);
        let mut adjusted_p_value: Vec<u8> = Vec::new();
        encode_optional_number(self.adjusted_p_value, &mut adjusted_p_value);
        proof {
            let nothing = Seq::<u8>::empty();
            assert(nothing + text_encoding(self@.gene) =~= text_encoding(self@.gene));
            assert(nothing + text_encoding(self@.gem) =~= text_encoding(self@.gem));
            assert(nothing + optional_text_encoding(self@.cpg_site_id) =~= optional_text_encoding(
                self@.cpg_site_id,
            ));
            assert(nothing + optional_number_encoding(self@.correlation)
                =~= optional_number_encoding(self@.correlation));
            assert(nothing + optional_number_encoding(self@.p_value) =~= optional_number_encoding(
                self@.p_value,
            ));
            assert(nothing + optional_number_encoding(self@.adjusted_p_value)
                =~= optional_number_encoding(self@.adjusted_p_value));
        }
        ResultState { gene, gem, cpg_site_id, correlation, p_value, adjusted_p_value }
    }

    /// Replaces the fields of this result by those that `state` holds. Where
    /// one of the six byte strings does not start with the encoding of its
    /// field, the result stays as it is.
    pub fn set_state(&mut self, state: &ResultState) -> (r: Result<(), AnalysisError>)
        ensures
            match restored(*state) {
                Some(result) => r is Ok && final(self)@ == result,
                None => r == Err::<(), AnalysisError>(AnalysisError::MalformedEncoding)
                    && *final(self) == *old(self),
            },
    {
        proof {
            assert(state.gene@.skip(0) =~= state.gene@);
            assert(state.gem@.skip(0) =~= state.gem@);
            assert(state.cpg_site_id@.skip(0) =~= state.cpg_site_id@);
            assert(state.correlation@.skip(0) =~= state.correlation@);
            assert(state.p_value@.skip(0) =~= state.p_value@);
            assert(state.adjusted_p_value@.skip(0) =~= state.adjusted_p_value@);
        }
        let gene = match decode_text(state.gene.as_slice(), 0) {
            Some((gene, _)) => gene,
            None => { return Err(AnalysisError::MalformedEncoding); },
        };
        let gem = match decode_text(state.gem.as_slice(), 0) {
            Some((gem, _)) => gem,
            None => { return Err(AnalysisError::MalformedEncoding); },
        };
        let cpg_site_id = match decode_optional_text(state.cpg_site_id.as_slice(), 0) {
            Some((cpg_site_id, _)) => cpg_site_id,
            None => { return Err(AnalysisError::MalformedEncoding); },
        };
        let correlation = match decode_optional_number(state.correlation.as_slice(), 0) {
            Some((correlation, _)) => correlation,
            None => { return Err(AnalysisError::MalformedEncoding); },
        };
        let p_value = match decode_optional_number(state.p_value.as_slice(), 0) {
            Some((p_value, _)) => p_value,
            None => { return Err(AnalysisError::MalformedEncoding); },
        };
        let adjusted_p_value = match decode_optional_number(state.adjusted_p_value.as_slice(), 0) {
            Some((adjusted_p_value, _)) => adjusted_p_value,
            None => { return Err(AnalysisError::MalformedEncoding); },
        };
        *self = CorResult { gene, gem, cpg_site_id, correlation, p_value, adjusted_p_value };
        Ok(())
    }
}

} // verus!
