//! Choice of the strongest results.
//!
//! The strength of a result is the absolute value of its correlation
//! statistic. Strengths are compared by their bit patterns, which for numbers
//! is the order of the absolute values; a NaN would count as stronger than
//! every number.

use crate::correlation::{views, CorResult, CorResultView};
use vstd::prelude::*;

verus! {

/// The bit pattern of a result's strength.
pub open spec fn strength_key(result: CorResultView) -> u64
    recommends
        result.correlation is Some,
{
    result.strength().bits
}

/// Whether no result is stronger than one before it.
pub open spec fn strongest_first_order(results: Seq<CorResultView>) -> bool {
    forall|i: int, j: int|
        0 <= i < j < results.len() ==> strength_key(#[trigger] results[i]) >= strength_key(
            #[trigger] results[j],
        )
}

/// Where `item` goes into `sorted`: behind the last result that is at least
/// as strong as `item`.
pub open spec fn insert_position(sorted: Seq<CorResultView>, item: CorResultView) -> int
    decreases sorted.len(),
{
    if sorted.len() == 0 {
        0
    } else if strength_key(sorted.last()) >= strength_key(item) {
        sorted.len() as int
    } else {
        insert_position(sorted.drop_last(), item)
    }
}

/// `sorted` with `item` put in at its position.
pub open spec fn insert_by_strength(
    sorted: Seq<CorResultView>,
    item: CorResultView,
) -> Seq<CorResultView> {
    sorted.insert(insert_position(sorted, item), item)
}

/// The results from the strongest to the weakest. Of two equally strong
/// results the one that came first stays first.
pub open spec fn strongest_first(results: Seq<CorResultView>) -> Seq<CorResultView>
    decreases results.len(),
{
    if results.len() == 0 {
        Seq::empty()
    } else {
        insert_by_strength(strongest_first(results.drop_last()), results.last())
    }
}

/// The first `n` of `results`, or all of them where they are fewer.
pub open spec fn leading(results: Seq<CorResultView>, n: nat) -> Seq<CorResultView> {
    if n >= results.len() {
        results
    } else {
        results.take(n as int)
    }
}

/// The `n` strongest of `results`, strongest first.
pub open spec fn top_n(results: Seq<CorResultView>, n: nat) -> Seq<CorResultView> {
    leading(strongest_first(results), n)
}

/// The insert position splits `sorted`: from it on every result is weaker
/// than `item`, and the result just before it is at least as strong.
pub proof fn lemma_insert_position(sorted: Seq<CorResultView>, item: CorResultView)
    ensures
        0 <= insert_position(sorted, item) <= sorted.len(),
        forall|i: int|
            insert_position(sorted, item) <= i < sorted.len() ==> strength_key(
                #[trigger] sorted[i],
            ) < strength_key(item),
        insert_position(sorted, item) > 0 ==> strength_key(
            sorted[insert_position(sorted, item) - 1],
        ) >= strength_key(item),
    decreases sorted.len(),
{
    if sorted.len() > 0 && strength_key(sorted.last()) < strength_key(item) {
        lemma_insert_position(sorted.drop_last(), item);
        let position = insert_position(sorted.drop_last(), item);
        assert forall|i: int| position <= i < sorted.len() implies strength_key(
            #[trigger] sorted[i],
        ) < strength_key(item) by {
            if i < sorted.len() - 1 {
                assert(sorted.drop_last()[i] == sorted[i]);
            }
        }
        if position > 0 {
            assert(sorted.drop_last()[position - 1] == sorted[position - 1]);
        }
    }
}

/// A position that splits `sorted` as the insert position does is the insert
/// position.
pub proof fn lemma_insert_position_unique(
    sorted: Seq<CorResultView>,
    item: CorResultView,
    position: int,
)
    requires
        0 <= position <= sorted.len(),
        forall|i: int|
            position <= i < sorted.len() ==> strength_key(#[trigger] sorted[i]) < strength_key(
                item,
            ),
        position > 0 ==> strength_key(sorted[position - 1]) >= strength_key(item),
    ensures
        insert_position(sorted, item) == position,
{
    lemma_insert_position(sorted, item);
    let found = insert_position(sorted, item);
    if position < found {
        assert(strength_key(sorted[found - 1]) < strength_key(item));
    } else if found < position {
        assert(strength_key(sorted[position - 1]) < strength_key(item));
    }
}

/// Putting a result into an ordered sequence leaves it ordered.
pub proof fn lemma_insert_keeps_order(sorted: Seq<CorResultView>, item: CorResultView)
    requires
        strongest_first_order(sorted),
    ensures
        strongest_first_order(insert_by_strength(sorted, item)),
{
    lemma_insert_position(sorted, item);
    let position = insert_position(sorted, item);
    let into = insert_by_strength(sorted, item);
    assert forall|i: int, j: int| 0 <= i < j < into.len() implies strength_key(
        #[trigger] into[i],
    ) >= strength_key(#[trigger] into[j]) by {
        if position > 0 {
            assert(strength_key(sorted[position - 1]) >= strength_key(item));
        }
        if i < position {
            assert(into[i] == sorted[i]);
            if i < position - 1 {
                assert(strength_key(sorted[i]) >= strength_key(sorted[position - 1]));
            }
        } else if i > position {
            assert(into[i] == sorted[i - 1]);
        }
        if j < position {
            assert(into[j] == sorted[j]);
        } else if j > position {
            assert(into[j] == sorted[j - 1]);
        }
    }
}

/// From the strongest to the weakest, the results are in order.
pub proof fn lemma_strongest_first_order(results: Seq<CorResultView>)
    ensures
        strongest_first_order(strongest_first(results)),
        strongest_first(results).len() == results.len(),
    decreases results.len(),
{
    if results.len() > 0 {
        lemma_strongest_first_order(results.drop_last());
        lemma_insert_position(strongest_first(results.drop_last()), results.last());
        lemma_insert_keeps_order(strongest_first(results.drop_last()), results.last());
    }
}

/// Ordering the results keeps each of them, as often as it occurred.
pub proof fn lemma_strongest_first_permutes(results: Seq<CorResultView>)
    ensures
        strongest_first(results).to_multiset() == results.to_multiset(),
    decreases results.len(),
{
    if results.len() == 0 {
        assert(strongest_first(results) =~= results);
    } else {
        let before = strongest_first(results.drop_last());
        lemma_strongest_first_permutes(results.drop_last());
        lemma_insert_position(before, results.last());
        vstd::seq_lib::to_multiset_insert(
            before,
            insert_position(before, results.last()),
            results.last(),
        );
        vstd::seq_lib::to_multiset_build(results.drop_last(), results.last());
        assert(results =~= results.drop_last().push(results.last()));
    }
}

/// Only the first `n` of an ordered sequence decide which are the first `n`
/// once another result is put in.
pub proof fn lemma_leading_insert(sorted: Seq<CorResultView>, item: CorResultView, n: nat)
    requires
        strongest_first_order(sorted),
    ensures
        leading(insert_by_strength(sorted, item), n) == leading(
            insert_by_strength(leading(sorted, n), item),
            n,
        ),
{
    if n < sorted.len() {
        lemma_insert_position(sorted, item);
        let position = insert_position(sorted, item);
        let head = sorted.take(n as int);
        if position <= n {
            assert forall|i: int| position <= i < head.len() implies strength_key(
                #[trigger] head[i],
            ) < strength_key(item) by {
                assert(head[i] == sorted[i]);
            }
            if position > 0 {
                assert(head[position - 1] == sorted[position - 1]);
            }
            lemma_insert_position_unique(head, item, position);
            assert(sorted.insert(position, item).take(n as int) =~= head.insert(
                position,
                item,
            ).take(n as int));
        } else {
            if n > 0 {
                assert(head[n - 1] == sorted[n - 1]);
                if n - 1 < position - 1 {
                    assert(strength_key(sorted[n - 1]) >= strength_key(sorted[position - 1]));
                }
            }
            lemma_insert_position_unique(head, item, n as int);
            assert(sorted.insert(position, item).take(n as int) =~= head);
            assert(head.insert(n as int, item).take(n as int) =~= head);
        }
    }
}

/// The results that are left out when the `n` strongest are kept.
pub open spec fn left_out(results: Seq<CorResultView>, n: nat) -> Seq<CorResultView> {
    if n >= results.len() {
        Seq::empty()
    } else {
        strongest_first(results).skip(n as int)
    }
}

/// Keeping the `n` strongest splits the results in two: each result is
/// either kept or left out, as often as it occurred, and no result that is
/// left out is stronger than one that is kept.
pub proof fn lemma_top_n_keeps_the_strongest(results: Seq<CorResultView>, n: nat)
    ensures
        (top_n(results, n) + left_out(results, n)).to_multiset() == results.to_multiset(),
        top_n(results, n).len() == if n <= results.len() {
            n
        } else {
            results.len()
        },
        forall|i: int, j: int|
            0 <= i < top_n(results, n).len() && 0 <= j < left_out(results, n).len()
                ==> strength_key(#[trigger] top_n(results, n)[i]) >= strength_key(
                #[trigger] left_out(results, n)[j],
            ),
{
    let sorted = strongest_first(results);
    lemma_strongest_first_order(results);
    lemma_strongest_first_permutes(results);
    if n >= results.len() {
        assert(top_n(results, n) + left_out(results, n) =~= sorted);
    } else {
        assert(sorted.take(n as int) + sorted.skip(n as int) =~= sorted);
        assert forall|i: int, j: int|
            0 <= i < top_n(results, n).len() && 0 <= j < left_out(results, n).len()
                implies strength_key(#[trigger] top_n(results, n)[i]) >= strength_key(
            #[trigger] left_out(results, n)[j],
        ) by {
            assert(top_n(results, n)[i] == sorted[i]);
            assert(left_out(results, n)[j] == sorted[n + j]);
        }
    }
}

/// The `n` strongest results, strongest first; of two equally strong
/// results the one that came first stays first. Every result has to have its
/// correlation.
pub fn keep_top_n(results: &Vec<CorResult>, n: usize) -> (kept: Vec<CorResult>)
    requires
        forall|i: int| 0 <= i < results@.len() ==> (#[trigger] results@[i]).correlation is Some,
    ensures
        views(kept@) == top_n(views(results@), n as nat),
        kept@.len() == if n <= results@.len() {
            n as nat
        } else {
            results@.len()
        },
        strongest_first_order(views(kept@)),
        forall|k: int|
            0 <= k < kept@.len() ==> exists|i: int|
                0 <= i < results@.len() && (#[trigger] kept@[k])@ == (#[trigger] results@[i])@,
{
    let ghost all = views(results@);
    let mut kept: Vec<CorResult> = Vec::new();
    let mut i: usize = 0;
    while i < results.len()
        invariant
            i <= results@.len(),
            all == views(results@),
            forall|k: int| 0 <= k < results@.len() ==> (#[trigger] results@[k]).correlation is Some,
            views(kept@) == top_n(all.take(i as int), n as nat),
            forall|k: int|
                0 <= k < kept@.len() ==> exists|j: int|
                    0 <= j < results@.len() && (#[trigger] kept@[k])@ == (#[trigger] results@[j])@,
        decreases results@.len() - i,
    {
        let ghost seen = all.take(i as int);
        let ghost sorted = strongest_first(seen);
        let ghost head = views(kept@);
        let ghost item = results@[i as int]@;
        proof {
            lemma_strongest_first_order(seen);
            assert(all.take(i + 1).drop_last() =~= seen);
            assert(all.take(i + 1).last() == item);
            lemma_leading_insert(sorted, item, n as nat);
        }
        let strength = results[i].abs_correlation().to_bits();
        let full = kept.len() >= n;
        let mut position: usize = kept.len();
        while position > 0 && kept[position - 1].abs_correlation().to_bits() < strength
            invariant
                position <= kept@.len(),
                head == views(kept@),
                strength == strength_key(item),
                forall|k: int|
                    0 <= k < kept@.len() ==> exists|j: int|
                        0 <= j < results@.len() && (#[trigger] kept@[k])@
                            == (#[trigger] results@[j])@,
                forall|k: int|
                    0 <= k < results@.len() ==> (#[trigger] results@[k]).correlation is Some,
                forall|k: int|
                    position <= k < head.len() ==> strength_key(#[trigger] head[k]) < strength,
            decreases position,
        {
            proof {
                let k = position - 1;
                let j = choose|j: int|
                    0 <= j < results@.len() && kept@[k]@ == (#[trigger] results@[j])@;
                assert(kept@[k].correlation is Some);
                assert(head[k] == kept@[k]@);
            }
            position -= 1;
        }
        proof {
            if position > 0 {
                let k = position - 1;
                let j = choose|j: int|
                    0 <= j < results@.len() && kept@[k]@ == (#[trigger] results@[j])@;
                assert(kept@[k].correlation is Some);
                assert(head[k] == kept@[k]@);
            }
            lemma_insert_position_unique(head, item, position as int);
        }
        if !(full && position == kept.len()) {
            kept.insert(position, results[i].clone());
            assert(views(kept@) =~= head.insert(position as int, item));
            if kept.len() > n {
                kept.pop();
                assert(views(kept@) =~= head.insert(position as int, item).take(n as int));
            }
        } else {
            assert(head.insert(position as int, item).take(n as int) =~= head);
        }
        i += 1;
    }
    proof {
        assert(all.take(i as int) =~= all);
        lemma_strongest_first_order(all);
    }
    kept
}

} // verus!
