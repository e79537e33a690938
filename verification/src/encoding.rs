//! The binary encoding of a result, as it is written to spill storage.
//!
//! A result is the concatenation of its six fields in declaration order. A
//! text is its length in bytes as a little-endian 64-bit integer, followed by
//! its UTF-8 bytes. An optional field is a tag byte, 0 for absent and 1 for
//! present, followed by the field if it is present. A number is its bit
//! pattern as a little-endian 64-bit integer. Nothing separates two results:
//! decoding says how many bytes it used.

use crate::correlation::{CorResult, CorResultView};
use crate::double::Double;
use vstd::bytes::{
    lemma_auto_spec_u64_to_from_le_bytes, spec_u64_from_le_bytes, spec_u64_to_le_bytes,
    u64_from_le_bytes, u64_to_le_bytes,
};
use vstd::prelude::*;
use vstd::slice::slice_subrange;
use vstd::string::StringSliceAdditionalSpecFns;
use vstd::utf8::{
    decode_utf8, decode_utf8_encode_utf8, encode_utf8, encode_utf8_decode_utf8,
    encode_utf8_valid_utf8, valid_utf8,
};

verus! {

/// The error of `core::str::from_utf8`; nothing is read from it.
#[verifier::external_type_specification]
#[verifier::external_body]
pub struct ExUtf8Error(core::str::Utf8Error);

/// `core::str::from_utf8` succeeds exactly on the byte slices that are valid
/// UTF-8, and the text it then returns has those bytes as its UTF-8 form.
pub assume_specification[ core::str::from_utf8 ](v: &[u8]) -> (r: Result<
    &str,
    core::str::Utf8Error,
>)
    ensures
        r is Ok <==> valid_utf8(v@),
        r is Ok ==> encode_utf8(r->Ok_0@) == v@,
;

/// Encoding of a text.
pub open spec fn text_encoding(text: Seq<char>) -> Seq<u8> {
    spec_u64_to_le_bytes(encode_utf8(text).len() as u64) + encode_utf8(text)
}

/// Encoding of an optional text.
pub open spec fn optional_text_encoding(text: Option<Seq<char>>) -> Seq<u8> {
    match text {
        None => seq![0u8],
        Some(text) => seq![1u8] + text_encoding(text),
    }
}

/// Encoding of an optional number.
pub open spec fn optional_number_encoding(number: Option<Double>) -> Seq<u8> {
    match number {
        None => seq![0u8],
        Some(number) => seq![1u8] + spec_u64_to_le_bytes(number.bits),
    }
}

/// Encoding of the three identifiers of a result.
pub open spec fn identifiers_encoding(
    gene: Seq<char>,
    gem: Seq<char>,
    cpg_site_id: Option<Seq<char>>,
) -> Seq<u8> {
    text_encoding(gene) + text_encoding(gem) + optional_text_encoding(cpg_site_id)
}

/// Encoding of the three numbers of a result.
pub open spec fn numbers_encoding(
    correlation: Option<Double>,
    p_value: Option<Double>,
    adjusted_p_value: Option<Double>,
) -> Seq<u8> {
    optional_number_encoding(correlation) + optional_number_encoding(p_value)
        + optional_number_encoding(adjusted_p_value)
}

/// Encoding of a result.
pub open spec fn result_encoding(result: CorResultView) -> Seq<u8> {
    identifiers_encoding(result.gene, result.gem, result.cpg_site_id) + numbers_encoding(
        result.correlation,
        result.p_value,
        result.adjusted_p_value,
    )
}

/// Whether the UTF-8 form of a text has a length that fits the 64-bit prefix.
pub open spec fn text_fits(text: Seq<char>) -> bool {
    encode_utf8(text).len() <= u64::MAX
}

/// Whether every text of a result fits its length prefix. It holds of the view
/// of every result in memory.
pub open spec fn encodable(result: CorResultView) -> bool {
    &&& text_fits(result.gene)
    &&& text_fits(result.gem)
    &&& result.cpg_site_id is Some ==> text_fits(result.cpg_site_id->0)
}

/// The text at the start of `bytes` and the number of bytes it takes, if
/// `bytes` starts with the encoding of a text.
pub open spec fn parse_text(bytes: Seq<u8>) -> Option<(Seq<char>, int)> {
    if bytes.len() < 8 {
        None
    } else {
        let length = spec_u64_from_le_bytes(bytes.subrange(0, 8)) as int;
        if length > bytes.len() - 8 {
            None
        } else if !valid_utf8(bytes.subrange(8, 8 + length)) {
            None
        } else {
            Some((decode_utf8(bytes.subrange(8, 8 + length)), 8 + length))
        }
    }
}

/// The optional text at the start of `bytes` and the number of bytes it takes.
pub open spec fn parse_optional_text(bytes: Seq<u8>) -> Option<(Option<Seq<char>>, int)> {
    if bytes.len() < 1 {
        None
    } else if bytes[0] == 0 {
        Some((None, 1))
    } else if bytes[0] == 1 {
        match parse_text(bytes.skip(1)) {
            Some((text, used)) => Some((Some(text), 1 + used)),
            None => None,
        }
    } else {
        None
    }
}

/// The optional number at the start of `bytes` and the number of bytes it takes.
pub open spec fn parse_optional_number(bytes: Seq<u8>) -> Option<(Option<Double>, int)> {
    if bytes.len() < 1 {
        None
    } else if bytes[0] == 0 {
        Some((None, 1))
    } else if bytes[0] == 1 {
        if bytes.len() < 9 {
            None
        } else {
            Some((Some(Double { bits: spec_u64_from_le_bytes(bytes.subrange(1, 9)) }), 9))
        }
    } else {
        None
    }
}

/// The three identifiers at the start of `bytes` and the number of bytes they take.
pub open spec fn parse_identifiers(bytes: Seq<u8>) -> Option<
    ((Seq<char>, Seq<char>, Option<Seq<char>>), int),
> {
    match parse_text(bytes) {
        None => None,
        Some((gene, n1)) => match parse_text(bytes.skip(n1)) {
            None => None,
            Some((gem, n2)) => match parse_optional_text(bytes.skip(n1 + n2)) {
                None => None,
                Some((cpg_site_id, n3)) => Some(((gene, gem, cpg_site_id), n1 + n2 + n3)),
            },
        },
    }
}

/// The three numbers at the start of `bytes` and the number of bytes they take.
pub open spec fn parse_numbers(bytes: Seq<u8>) -> Option<
    ((Option<Double>, Option<Double>, Option<Double>), int),
> {
    match parse_optional_number(bytes) {
        None => None,
        Some((correlation, n1)) => match parse_optional_number(bytes.skip(n1)) {
            None => None,
            Some((p_value, n2)) => match parse_optional_number(bytes.skip(n1 + n2)) {
                None => None,
                Some((adjusted_p_value, n3)) => Some(
                    ((correlation, p_value, adjusted_p_value), n1 + n2 + n3),
                ),
            },
        },
    }
}

/// The result at the start of `bytes` and the number of bytes it takes, if
/// `bytes` starts with the encoding of a result.
pub open spec fn parse_result(bytes: Seq<u8>) -> Option<(CorResultView, int)> {
    match parse_identifiers(bytes) {
        None => None,
        Some(((gene, gem, cpg_site_id), n1)) => match parse_numbers(bytes.skip(n1)) {
            None => None,
            Some(((correlation, p_value, adjusted_p_value), n2)) => Some(
                (
                    CorResultView {
                        gene,
                        gem,
                        cpg_site_id,
                        correlation,
                        p_value,
                        adjusted_p_value,
                    },
                    n1 + n2,
                ),
            ),
        },
    }
}

/// A text is read back from its encoding, whatever follows.
pub proof fn lemma_parse_text_encoding(text: Seq<char>, rest: Seq<u8>)
    requires
        text_fits(text),
    ensures
        parse_text(text_encoding(text) + rest) == Some((text, text_encoding(text).len() as int)),
{
    lemma_auto_spec_u64_to_from_le_bytes();
    encode_utf8_valid_utf8(text);
    encode_utf8_decode_utf8(text);
    let body = encode_utf8(text);
    let prefix = spec_u64_to_le_bytes(body.len() as u64);
    let bytes = text_encoding(text) + rest;
    assert(bytes.subrange(0, 8) =~= prefix);
    assert(bytes.subrange(8, 8 + body.len() as int) =~= body);
}

/// An optional text is read back from its encoding, whatever follows.
pub proof fn lemma_parse_optional_text_encoding(text: Option<Seq<char>>, rest: Seq<u8>)
    requires
        text is Some ==> text_fits(text->0),
    ensures
        parse_optional_text(optional_text_encoding(text) + rest) == Some(
            (text, optional_text_encoding(text).len() as int),
        ),
{
    let bytes = optional_text_encoding(text) + rest;
    match text {
        None => {},
        Some(inner) => {
            lemma_parse_text_encoding(inner, rest);
            assert(bytes.skip(1) =~= text_encoding(inner) + rest);
        },
    }
}

/// An optional number is read back from its encoding, whatever follows.
pub proof fn lemma_parse_optional_number_encoding(number: Option<Double>, rest: Seq<u8>)
    ensures
        parse_optional_number(optional_number_encoding(number) + rest) == Some(
            (number, optional_number_encoding(number).len() as int),
        ),
{
    lemma_auto_spec_u64_to_from_le_bytes();
    let bytes = optional_number_encoding(number) + rest;
    match number {
        None => {},
        Some(inner) => {
            assert(bytes.subrange(1, 9) =~= spec_u64_to_le_bytes(inner.bits));
        },
    }
}

/// The identifiers are read back from their encoding, whatever follows.
pub proof fn lemma_parse_identifiers_encoding(
    gene: Seq<char>,
    gem: Seq<char>,
    cpg_site_id: Option<Seq<char>>,
    rest: Seq<u8>,
)
    requires
        text_fits(gene),
        text_fits(gem),
        cpg_site_id is Some ==> text_fits(cpg_site_id->0),
    ensures
        parse_identifiers(identifiers_encoding(gene, gem, cpg_site_id) + rest) == Some(
            ((gene, gem, cpg_site_id), identifiers_encoding(gene, gem, cpg_site_id).len() as int),
        ),
{
    let e1 = text_encoding(gene);
    let e2 = text_encoding(gem);
    let e3 = optional_text_encoding(cpg_site_id);
    let bytes = identifiers_encoding(gene, gem, cpg_site_id) + rest;
    lemma_parse_text_encoding(gene, e2 + e3 + rest);
    assert(bytes =~= e1 + (e2 + e3 + rest));
    lemma_parse_text_encoding(gem, e3 + rest);
    assert(bytes.skip(e1.len() as int) =~= e2 + (e3 + rest));
    lemma_parse_optional_text_encoding(cpg_site_id, rest);
    assert(bytes.skip((e1.len() + e2.len()) as int) =~= e3 + rest);
}

/// The numbers are read back from their encoding, whatever follows.
pub proof fn lemma_parse_numbers_encoding(
    correlation: Option<Double>,
    p_value: Option<Double>,
    adjusted_p_value: Option<Double>,
    rest: Seq<u8>,
)
    ensures
        parse_numbers(numbers_encoding(correlation, p_value, adjusted_p_value) + rest) == Some(
            (
                (correlation, p_value, adjusted_p_value),
                numbers_encoding(correlation, p_value, adjusted_p_value).len() as int,
            ),
        ),
{
    let e1 = optional_number_encoding(correlation);
    let e2 = optional_number_encoding(p_value);
    let e3 = optional_number_encoding(adjusted_p_value);
    let bytes = numbers_encoding(correlation, p_value, adjusted_p_value) + rest;
    lemma_parse_optional_number_encoding(correlation, e2 + e3 + rest);
    assert(bytes =~= e1 + (e2 + e3 + rest));
    lemma_parse_optional_number_encoding(p_value, e3 + rest);
    assert(bytes.skip(e1.len() as int) =~= e2 + (e3 + rest));
    lemma_parse_optional_number_encoding(adjusted_p_value, rest);
    assert(bytes.skip((e1.len() + e2.len()) as int) =~= e3 + rest);
}

/// Decoding the encoding of a result gives the same result back, with its
/// absent fields absent, and uses exactly the bytes of the encoding, whatever
/// follows them.
pub proof fn lemma_decode_encode(result: CorResultView, rest: Seq<u8>)
    requires
        encodable(result),
    ensures
        parse_result(result_encoding(result) + rest) == Some(
            (result, result_encoding(result).len() as int),
        ),
{
    let names = identifiers_encoding(result.gene, result.gem, result.cpg_site_id);
    let numbers = numbers_encoding(result.correlation, result.p_value, result.adjusted_p_value);
    let bytes = result_encoding(result) + rest;
    lemma_parse_identifiers_encoding(result.gene, result.gem, result.cpg_site_id, numbers + rest);
    assert(bytes =~= names + (numbers + rest));
    lemma_parse_numbers_encoding(
        result.correlation,
        result.p_value,
        result.adjusted_p_value,
        rest,
    );
    assert(bytes.skip(names.len() as int) =~= numbers + rest);
}

/// Bytes that a text is read from start with the encoding of that text.
pub proof fn lemma_parse_text_canonical(bytes: Seq<u8>, text: Seq<char>, used: int)
    requires
        parse_text(bytes) == Some((text, used)),
    ensures
        text_fits(text),
        0 <= used <= bytes.len(),
        bytes.take(used) == text_encoding(text),
{
    lemma_auto_spec_u64_to_from_le_bytes();
    let prefix = bytes.subrange(0, 8);
    let length = spec_u64_from_le_bytes(prefix);
    let body = bytes.subrange(8, 8 + length);
    decode_utf8_encode_utf8(body);
    assert(spec_u64_to_le_bytes(length) == prefix);
    assert(bytes.take(8 + length) =~= prefix + body);
}

/// Bytes that an optional text is read from start with its encoding.
pub proof fn lemma_parse_optional_text_canonical(
    bytes: Seq<u8>,
    text: Option<Seq<char>>,
    used: int,
)
    requires
        parse_optional_text(bytes) == Some((text, used)),
    ensures
        text is Some ==> text_fits(text->0),
        0 <= used <= bytes.len(),
        bytes.take(used) == optional_text_encoding(text),
{
    if bytes[0] == 0 {
        assert(bytes.take(1) =~= seq![0u8]);
    } else {
        lemma_parse_text_canonical(bytes.skip(1), text->0, used - 1);
        assert(bytes.take(used) =~= seq![1u8] + bytes.skip(1).take(used - 1));
    }
}

/// Bytes that an optional number is read from start with its encoding.
pub proof fn lemma_parse_optional_number_canonical(
    bytes: Seq<u8>,
    number: Option<Double>,
    used: int,
)
    requires
        parse_optional_number(bytes) == Some((number, used)),
    ensures
        0 <= used <= bytes.len(),
        bytes.take(used) == optional_number_encoding(number),
{
    lemma_auto_spec_u64_to_from_le_bytes();
    if bytes[0] == 0 {
        assert(bytes.take(1) =~= seq![0u8]);
    } else {
        let pattern = bytes.subrange(1, 9);
        assert(spec_u64_to_le_bytes(spec_u64_from_le_bytes(pattern)) == pattern);
        assert(bytes.take(9) =~= seq![1u8] + pattern);
    }
}

/// Bytes that a result is read from start with the encoding of that result:
/// no two different byte sequences decode to the same result over their
/// whole length.
pub proof fn lemma_encode_decode(bytes: Seq<u8>, result: CorResultView, used: int)
    requires
        parse_result(bytes) == Some((result, used)),
    ensures
        encodable(result),
        0 <= used <= bytes.len(),
        bytes.take(used) == result_encoding(result),
{
    let (_, n1) = parse_text(bytes)->0;
    lemma_parse_text_canonical(bytes, result.gene, n1);
    let (_, n2) = parse_text(bytes.skip(n1))->0;
    lemma_parse_text_canonical(bytes.skip(n1), result.gem, n2);
    let (_, n3) = parse_optional_text(bytes.skip(n1 + n2))->0;
    lemma_parse_optional_text_canonical(bytes.skip(n1 + n2), result.cpg_site_id, n3);
    let tail = bytes.skip(n1 + n2 + n3);
    let (_, n4) = parse_optional_number(tail)->0;
    lemma_parse_optional_number_canonical(tail, result.correlation, n4);
    let (_, n5) = parse_optional_number(tail.skip(n4))->0;
    lemma_parse_optional_number_canonical(tail.skip(n4), result.p_value, n5);
    let (_, n6) = parse_optional_number(tail.skip(n4 + n5))->0;
    lemma_parse_optional_number_canonical(tail.skip(n4 + n5), result.adjusted_p_value, n6);
    assert(bytes.take(n1 + n2 + n3 + n4 + n5 + n6) =~= bytes.take(n1) + bytes.skip(n1).take(n2)
        + bytes.skip(n1 + n2).take(n3) + tail.take(n4) + tail.skip(n4).take(n5) + tail.skip(
        n4 + n5,
    ).take(n6));
}

pub(crate) fn append_bytes(out: &mut Vec<u8>, bytes: &[u8])
    ensures
        final(out)@ == old(out)@ + bytes@,
{
    let mut i: usize = 0;
    while i < bytes.len()
        invariant
            i <= bytes@.len(),
            out@ == old(out)@ + bytes@.subrange(0, i as int),
        decreases bytes@.len() - i,
    {
        out.push(bytes[i]);
        i += 1;
        assert(out@ =~= old(out)@ + bytes@.subrange(0, i as int));
    }
    assert(bytes@.subrange(0, i as int) =~= bytes@);
}

pub(crate) fn encode_text(text: &str, out: &mut Vec<u8>)
    ensures
        final(out)@ == old(out)@ + text_encoding(text@),
        text_fits(text@),
{
    let bytes = text.as_bytes();
    let prefix = u64_to_le_bytes(bytes.len() as u64);
    append_bytes(out, prefix.as_slice());
    append_bytes(out, bytes);
    assert(out@ =~= old(out)@ + text_encoding(text@));
}

pub(crate) fn encode_optional_text(text: &Option<String>, out: &mut Vec<u8>)
    ensures
        final(out)@ == old(out)@ + optional_text_encoding(
            match *text {
                Some(text) => Some(text@),
                None => None,
            },
        ),
        *text is Some ==> text_fits(text->0@),
{
    match text {
        None => {
            out.push(0u8);
            assert(out@ =~= old(out)@ + seq![0u8]);
        },
        Some(text) => {
            out.push(1u8);
            encode_text(text.as_str(), out);
            assert(out@ =~= old(out)@ + (seq![1u8] + text_encoding(text@)));
        },
    }
}

pub(crate) fn encode_optional_number(number: Option<Double>, out: &mut Vec<u8>)
    ensures
        final(out)@ == old(out)@ + optional_number_encoding(number),
{
    match number {
        None => {
            out.push(0u8);
            assert(out@ =~= old(out)@ + seq![0u8]);
        },
        Some(number) => {
            out.push(1u8);
            let pattern = u64_to_le_bytes(number.to_bits());
            append_bytes(out, pattern.as_slice());
            assert(out@ =~= old(out)@ + (seq![1u8] + spec_u64_to_le_bytes(number.bits)));
        },
    }
}

pub(crate) fn decode_text(bytes: &[u8], start: usize) -> (r: Option<(String, usize)>)
    requires
        start <= bytes@.len(),
    ensures
        match parse_text(bytes@.skip(start as int)) {
            Some((text, used)) => match r {
                Some((found, end)) => found@ == text && end == start + used && end
                    <= bytes@.len(),
                None => false,
            },
            None => r is None,
        },
{
    let ghost tail = bytes@.skip(start as int);
    let available: usize = bytes.len() - start;
    if available < 8 {
        return None;
    }
    let prefix = slice_subrange(bytes, start, start + 8);
    assert(prefix@ =~= tail.subrange(0, 8));
    let length = u64_from_le_bytes(prefix);
    if length > (available - 8) as u64 {
        return None;
    }
    let length: usize = length as usize;
    let body = slice_subrange(bytes, start + 8, start + 8 + length);
    assert(body@ =~= tail.subrange(8, 8 + length));
    match core::str::from_utf8(body) {
        Ok(text) => {
            proof {
                encode_utf8_decode_utf8(text@);
            }
            Some((text.to_owned(), start + 8 + length))
        },
        Err(_) => None,
    }
}

pub(crate) fn decode_optional_text(bytes: &[u8], start: usize) -> (r: Option<
    (Option<String>, usize),
>)
    requires
        start <= bytes@.len(),
    ensures
        match parse_optional_text(bytes@.skip(start as int)) {
            Some((text, used)) => match r {
                Some((Some(found), end)) => text == Some(found@) && end == start + used && end
                    <= bytes@.len(),
                Some((None, end)) => text is None && end == start + used && end <= bytes@.len(),
                None => false,
            },
            None => r is None,
        },
{
    if bytes.len() - start < 1 {
        return None;
    }
    let tag = bytes[start];
    assert(bytes@.skip(start as int)[0] == tag);
    if tag == 0 {
        Some((None, start + 1))
    } else if tag == 1 {
        assert(bytes@.skip(start as int).skip(1) =~= bytes@.skip(start + 1));
        match decode_text(bytes, start + 1) {
            Some((text, end)) => Some((Some(text), end)),
            None => None,
        }
    } else {
        None
    }
}

pub(crate) fn decode_optional_number(bytes: &[u8], start: usize) -> (r: Option<
    (Option<Double>, usize),
>)
    requires
        start <= bytes@.len(),
    ensures
        match parse_optional_number(bytes@.skip(start as int)) {
            Some((number, used)) => match r {
                Some((found, end)) => found == number && end == start + used && end
                    <= bytes@.len(),
                None => false,
            },
            None => r is None,
        },
{
    let available: usize = bytes.len() - start;
    if available < 1 {
        return None;
    }
    let tag = bytes[start];
    assert(bytes@.skip(start as int)[0] == tag);
    if tag == 0 {
        Some((None, start + 1))
    } else if tag == 1 {
        if available < 9 {
            return None;
        }
        let pattern = slice_subrange(bytes, start + 1, start + 9);
        assert(pattern@ =~= bytes@.skip(start as int).subrange(1, 9));
        Some((Some(Double::from_bits(u64_from_le_bytes(pattern))), start + 9))
    } else {
        None
    }
}

fn decode_identifiers(bytes: &[u8]) -> (r: Option<(String, String, Option<String>, usize)>)
    ensures
        match parse_identifiers(bytes@) {
            Some(((gene, gem, cpg_site_id), used)) => match r {
                Some((found_gene, found_gem, Some(found_cpg), end)) => found_gene@ == gene
                    && found_gem@ == gem && cpg_site_id == Some(found_cpg@) && end == used && end
                    <= bytes@.len(),
                Some((found_gene, found_gem, None, end)) => found_gene@ == gene && found_gem@
                    == gem && cpg_site_id is None && end == used && end <= bytes@.len(),
                None => false,
            },
            None => r is None,
        },
{
    assert(bytes@.skip(0) =~= bytes@);
    match decode_text(bytes, 0) {
        None => None,
        Some((gene, gene_end)) => match decode_text(bytes, gene_end) {
            None => None,
            Some((gem, gem_end)) => match decode_optional_text(bytes, gem_end) {
                None => None,
                Some((cpg_site_id, site_end)) => Some((gene, gem, cpg_site_id, site_end)),
            },
        },
    }
}

fn decode_numbers(bytes: &[u8], start: usize) -> (r: Option<
    (Option<Double>, Option<Double>, Option<Double>, usize),
>)
    requires
        start <= bytes@.len(),
    ensures
        match parse_numbers(bytes@.skip(start as int)) {
            Some(((correlation, p_value, adjusted_p_value), used)) => match r {
                Some((found_correlation, found_p_value, found_adjusted, end)) => found_correlation
                    == correlation && found_p_value == p_value && found_adjusted
                    == adjusted_p_value && end == start + used && end <= bytes@.len(),
                None => false,
            },
            None => r is None,
        },
{
    let ghost tail = bytes@.skip(start as int);
    match decode_optional_number(bytes, start) {
        None => None,
        Some((correlation, first_end)) => {
            assert(tail.skip(first_end - start) =~= bytes@.skip(first_end as int));
            match decode_optional_number(bytes, first_end) {
                None => None,
                Some((p_value, second_end)) => {
                    assert(tail.skip(second_end - start) =~= bytes@.skip(second_end as int));
                    match decode_optional_number(bytes, second_end) {
                        None => None,
                        Some((adjusted_p_value, third_end)) => Some(
                            (correlation, p_value, adjusted_p_value, third_end),
                        ),
                    }
                },
            }
        },
    }
}

impl CorResult {
    /// The encoding of this result.
    pub fn encode(&self) -> (bytes: Vec<u8>)
        ensures
            bytes@ == result_encoding(self@),
            encodable(self@),
    {
        let mut bytes: Vec<u8> = Vec::new();
        encode_text(self.gene.as_str(), &mut bytes);
        encode_text(self.gem.as_str(), &mut bytes);
        encode_optional_text(&self.cpg_site_id, &mut bytes);
        encode_optional_number(self.correlation, &mut bytes);
        encode_optional_number(self.p_value, &mut bytes);
        encode_optional_number(self.adjusted_p_value, &mut bytes);
        assert(bytes@ =~= result_encoding(self@));
        bytes
    }

    /// Reads the result that `bytes` starts with. Returns it with the number
    /// of bytes it took, or `None` where `bytes` does not start with the
    /// encoding of a result: where they end too early, where a tag byte is
    /// neither 0 nor 1, or where a text is not valid UTF-8.
    pub fn decode(bytes: &[u8]) -> (r: Option<(CorResult, usize)>)
        ensures
            match parse_result(bytes@) {
                Some((result, used)) => match r {
                    Some((found, end)) => found@ == result && end == used,
                    None => false,
                },
                None => r is None,
            },
    {
        match decode_identifiers(bytes) {
            None => None,
            Some((gene, gem, cpg_site_id, names_end)) => match decode_numbers(bytes, names_end) {
                None => None,
                Some((correlation, p_value, adjusted_p_value, end)) => Some(
                    (
                        CorResult {
                            gene,
                            gem,
                            cpg_site_id,
                            correlation,
                            p_value,
                            adjusted_p_value,
                        },
                        end,
                    ),
                ),
            },
        }
    }
}

} // verus!
