//! Reading a result from a stream, piece by piece.
//!
//! The encoding of a result does not say up front how long it is. A reader
//! that must not take a byte of the next result asks [`CorResult::reading`]
//! what the bytes it has read so far call for, reads that many more, and asks
//! again.

use crate::correlation::CorResult;
use crate::encoding::{
    parse_identifiers, parse_numbers, parse_optional_number, parse_optional_text, parse_result,
    parse_text,
};
use vstd::bytes::{spec_u64_from_le_bytes, u64_from_le_bytes};
use vstd::prelude::*;
use vstd::slice::slice_subrange;
use vstd::utf8::valid_utf8;

verus! {

/// What the bytes read so far call for.
#[derive(Clone, Copy, Debug, PartialEq, Eq, Structural)]
pub enum Reading {
    /// The bytes start with a whole result, which takes this many of them.
    Complete(usize),
    /// The bytes end inside a result, and at least this many more belong to it.
    Missing(u64),
    /// The bytes do not start a result, whatever follows them.
    Malformed,
}

/// A reading of what lies behind the first `used` bytes, counted from the start.
pub open spec fn after(used: int, rest: Reading) -> Reading {
    match rest {
        Reading::Complete(n) => Reading::Complete((used + n) as usize),
        other => other,
    }
}

pub open spec fn text_reading(bytes: Seq<u8>) -> Reading {
    if bytes.len() < 8 {
        Reading::Missing((8 - bytes.len()) as u64)
    } else {
        let length = spec_u64_from_le_bytes(bytes.subrange(0, 8)) as int;
        if length > bytes.len() - 8 {
            Reading::Missing((length - (bytes.len() - 8)) as u64)
        } else if !valid_utf8(bytes.subrange(8, 8 + length)) {
            Reading::Malformed
        } else {
            Reading::Complete((8 + length) as usize)
        }
    }
}

pub open spec fn optional_text_reading(bytes: Seq<u8>) -> Reading {
    if bytes.len() < 1 {
        Reading::Missing(1)
    } else if bytes[0] == 0 {
        Reading::Complete(1)
    } else if bytes[0] == 1 {
        after(1, text_reading(bytes.skip(1)))
    } else {
        Reading::Malformed
    }
}

pub open spec fn optional_number_reading(bytes: Seq<u8>) -> Reading {
    if bytes.len() < 1 {
        Reading::Missing(1)
    } else if bytes[0] == 0 {
        Reading::Complete(1)
    } else if bytes[0] == 1 {
        if bytes.len() < 9 {
            Reading::Missing((9 - bytes.len()) as u64)
        } else {
            Reading::Complete(9)
        }
    } else {
        Reading::Malformed
    }
}

pub open spec fn identifiers_reading(bytes: Seq<u8>) -> Reading {
    match text_reading(bytes) {
        Reading::Complete(n1) => match text_reading(bytes.skip(n1 as int)) {
            Reading::Complete(n2) => after(
                n1 + n2,
                optional_text_reading(bytes.skip(n1 + n2)),
            ),
            other => other,
        },
        other => other,
    }
}

pub open spec fn numbers_reading(bytes: Seq<u8>) -> Reading {
    match optional_number_reading(bytes) {
        Reading::Complete(n1) => match optional_number_reading(bytes.skip(n1 as int)) {
            Reading::Complete(n2) => after(
                n1 + n2,
                optional_number_reading(bytes.skip(n1 + n2)),
            ),
            other => other,
        },
        other => other,
    }
}

/// What bytes that were read from the start of a result call for.
pub open spec fn result_reading(bytes: Seq<u8>) -> Reading {
    match identifiers_reading(bytes) {
        Reading::Complete(n) => after(n as int, numbers_reading(bytes.skip(n as int))),
        other => other,
    }
}

/// What a reading claims of decoding. `found` is what decoding the bytes
/// gives, and `extended` what decoding gives once `more` further bytes have
/// been put behind them. A complete reading claims that decoding succeeds,
/// takes the number of bytes that the reading names, and gives the same
/// whatever is put behind. A reading with bytes missing claims that decoding
/// fails, and still fails with fewer further bytes than it names. A malformed
/// reading claims that decoding fails whatever is put behind.
pub open spec fn agrees<T>(
    reading: Reading,
    found: Option<(T, int)>,
    extended: Option<(T, int)>,
    more: nat,
) -> bool {
    match reading {
        Reading::Complete(n) => match found {
            Some((_, used)) => used == n && extended == found,
            None => false,
        },
        Reading::Missing(k) => k >= 1 && found is None && (more < k ==> extended is None),
        Reading::Malformed => found is None && extended is None,
    }
}

pub proof fn lemma_text_reading(bytes: Seq<u8>, more: Seq<u8>)
    requires
        bytes.len() <= usize::MAX,
    ensures
        agrees(text_reading(bytes), parse_text(bytes), parse_text(bytes + more), more.len()),
{
    if bytes.len() >= 8 {
        let length = spec_u64_from_le_bytes(bytes.subrange(0, 8)) as int;
        assert((bytes + more).subrange(0, 8) =~= bytes.subrange(0, 8));
        if length <= bytes.len() - 8 {
            assert((bytes + more).subrange(8, 8 + length) =~= bytes.subrange(8, 8 + length));
        }
    }
}

pub proof fn lemma_optional_text_reading(bytes: Seq<u8>, more: Seq<u8>)
    requires
        bytes.len() <= usize::MAX,
    ensures
        agrees(
            optional_text_reading(bytes),
            parse_optional_text(bytes),
            parse_optional_text(bytes + more),
            more.len(),
        ),
{
    if bytes.len() >= 1 && bytes[0] == 1 {
        lemma_text_reading(bytes.skip(1), more);
        assert((bytes + more).skip(1) =~= bytes.skip(1) + more);
    }
}

pub proof fn lemma_optional_number_reading(bytes: Seq<u8>, more: Seq<u8>)
    requires
        bytes.len() <= usize::MAX,
    ensures
        agrees(
            optional_number_reading(bytes),
            parse_optional_number(bytes),
            parse_optional_number(bytes + more),
            more.len(),
        ),
{
    if bytes.len() >= 9 && bytes[0] == 1 {
        assert((bytes + more).subrange(1, 9) =~= bytes.subrange(1, 9));
    }
}

pub proof fn lemma_identifiers_reading(bytes: Seq<u8>, more: Seq<u8>)
    requires
        bytes.len() <= usize::MAX,
    ensures
        agrees(
            identifiers_reading(bytes),
            parse_identifiers(bytes),
            parse_identifiers(bytes + more),
            more.len(),
        ),
{
    lemma_text_reading(bytes, more);
    if let Reading::Complete(n1) = text_reading(bytes) {
        let second = bytes.skip(n1 as int);
        assert((bytes + more).skip(n1 as int) =~= second + more);
        lemma_text_reading(second, more);
        if let Reading::Complete(n2) = text_reading(second) {
            let third = bytes.skip(n1 + n2);
            assert((bytes + more).skip(n1 + n2) =~= third + more);
            lemma_optional_text_reading(third, more);
        }
    }
}

pub proof fn lemma_numbers_reading(bytes: Seq<u8>, more: Seq<u8>)
    requires
        bytes.len() <= usize::MAX,
    ensures
        agrees(
            numbers_reading(bytes),
            parse_numbers(bytes),
            parse_numbers(bytes + more),
            more.len(),
        ),
{
    lemma_optional_number_reading(bytes, more);
    if let Reading::Complete(n1) = optional_number_reading(bytes) {
        let second = bytes.skip(n1 as int);
        assert((bytes + more).skip(n1 as int) =~= second + more);
        lemma_optional_number_reading(second, more);
        if let Reading::Complete(n2) = optional_number_reading(second) {
            let third = bytes.skip(n1 + n2);
            assert((bytes + more).skip(n1 + n2) =~= third + more);
            lemma_optional_number_reading(third, more);
        }
    }
}

/// What a reading says is true of decoding: a complete reading means that
/// the bytes decode, to the same result whatever follows them; a reading with
/// bytes missing means that the bytes do not decode and will not with fewer
/// further bytes than it names; a malformed reading means that the bytes
/// will never decode.
pub proof fn lemma_reading(bytes: Seq<u8>, more: Seq<u8>)
    requires
        bytes.len() <= usize::MAX,
    ensures
        agrees(result_reading(bytes), parse_result(bytes), parse_result(bytes + more), more.len()),
{
    lemma_identifiers_reading(bytes, more);
    if let Reading::Complete(n) = identifiers_reading(bytes) {
        let tail = bytes.skip(n as int);
        assert((bytes + more).skip(n as int) =~= tail + more);
        lemma_numbers_reading(tail, more);
    }
}

fn read_text(bytes: &[u8], start: usize) -> (r: Reading)
    requires
        start <= bytes@.len(),
    ensures
        r == text_reading(bytes@.skip(start as int)),
        match r {
            Reading::Complete(n) => start + n <= bytes@.len(),
            _ => true,
        },
{
    let ghost tail = bytes@.skip(start as int);
    let available: usize = bytes.len() - start;
    if available < 8 {
        return Reading::Missing((8 - available) as u64);
    }
    let prefix = slice_subrange(bytes, start, start + 8);
    assert(prefix@ =~= tail.subrange(0, 8));
    let length = u64_from_le_bytes(prefix);
    if length > (available - 8) as u64 {
        return Reading::Missing(length - (available - 8) as u64);
    }
    let length: usize = length as usize;
    let body = slice_subrange(bytes, start + 8, start + 8 + length);
    assert(body@ =~= tail.subrange(8, 8 + length));
    match core::str::from_utf8(body) {
        Ok(_) => Reading::Complete(8 + length),
        Err(_) => Reading::Malformed,
    }
}

fn read_optional_text(bytes: &[u8], start: usize) -> (r: Reading)
    requires
        start <= bytes@.len(),
    ensures
        r == optional_text_reading(bytes@.skip(start as int)),
        match r {
            Reading::Complete(n) => start + n <= bytes@.len(),
            _ => true,
        },
{
    if bytes.len() - start < 1 {
        return Reading::Missing(1);
    }
    let tag = bytes[start];
    assert(bytes@.skip(start as int)[0] == tag);
    if tag == 0 {
        Reading::Complete(1)
    } else if tag == 1 {
        assert(bytes@.skip(start as int).skip(1) =~= bytes@.skip(start + 1));
        match read_text(bytes, start + 1) {
            Reading::Complete(n) => Reading::Complete(1 + n),
            other => other,
        }
    } else {
        Reading::Malformed
    }
}

fn read_optional_number(bytes: &[u8], start: usize) -> (r: Reading)
    requires
        start <= bytes@.len(),
    ensures
        r == optional_number_reading(bytes@.skip(start as int)),
        match r {
            Reading::Complete(n) => start + n <= bytes@.len(),
            _ => true,
        },
{
    let available: usize = bytes.len() - start;
    if available < 1 {
        return Reading::Missing(1);
    }
    let tag = bytes[start];
    assert(bytes@.skip(start as int)[0] == tag);
    if tag == 0 {
        Reading::Complete(1)
    } else if tag == 1 {
        if available < 9 {
            Reading::Missing((9 - available) as u64)
        } else {
            Reading::Complete(9)
        }
    } else {
        Reading::Malformed
    }
}

fn read_identifiers(bytes: &[u8]) -> (r: Reading)
    ensures
        r == identifiers_reading(bytes@),
        match r {
            Reading::Complete(n) => n <= bytes@.len(),
            _ => true,
        },
{
    assert(bytes@.skip(0) =~= bytes@);
    let held = bytes.len();
    let n1 = match read_text(bytes, 0) {
        Reading::Complete(n) => n,
        other => { return other; },
    };
    let n2 = match read_text(bytes, n1) {
        Reading::Complete(n) => n,
        other => { return other; },
    };
    match read_optional_text(bytes, n1 + n2) {
        Reading::Complete(n) => Reading::Complete(n1 + n2 + n),
        other => other,
    }
}

fn read_numbers(bytes: &[u8], start: usize) -> (r: Reading)
    requires
        start <= bytes@.len(),
    ensures
        r == numbers_reading(bytes@.skip(start as int)),
        match r {
            Reading::Complete(n) => start + n <= bytes@.len(),
            _ => true,
        },
{
    let ghost tail = bytes@.skip(start as int);
    let held = bytes.len();
    let n1 = match read_optional_number(bytes, start) {
        Reading::Complete(n) => n,
        other => { return other; },
    };
    assert(tail.skip(n1 as int) =~= bytes@.skip(start + n1));
    let n2 = match read_optional_number(bytes, start + n1) {
        Reading::Complete(n) => n,
        other => { return other; },
    };
    assert(tail.skip(n1 + n2) =~= bytes@.skip(start + n1 + n2));
    match read_optional_number(bytes, start + n1 + n2) {
        Reading::Complete(n) => Reading::Complete(n1 + n2 + n),
        other => other,
    }
}

impl CorResult {
    /// What the bytes read so far from the start of a result call for.
    ///
    /// `Complete` with the length of the result where the bytes hold all of
    /// it: [`CorResult::decode`] then gives the result, and takes that many
    /// bytes. `Missing` with a number of bytes that all belong to the same
    /// result where the bytes end inside it. `Malformed` where a tag byte is
    /// neither 0 nor 1 or a text is not valid UTF-8.
    pub fn reading(bytes: &[u8]) -> (r: Reading)
        ensures
            r == result_reading(bytes@),
            agrees(r, parse_result(bytes@), parse_result(bytes@), 0),
    {
        let held = bytes.len();
        proof {
            lemma_reading(bytes@, Seq::empty());
            assert(bytes@ + Seq::<u8>::empty() =~= bytes@);
        }
        let n = match read_identifiers(bytes) {
            Reading::Complete(n) => n,
            other => { return other; },
        };
        match read_numbers(bytes, n) {
            Reading::Complete(m) => Reading::Complete(n + m),
            other => other,
        }
    }
}

} // verus!
