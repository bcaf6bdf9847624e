//! Sorting of signature letters.

use vstd::prelude::*;
use vstd::relations::{sorted_by, total_ordering};
use vstd::seq_lib::{lemma_sorted_unique, to_multiset_build, to_multiset_insert};

verus! {

/// The order of letters: that of their code points.
pub open spec fn letter_order() -> spec_fn(char, char) -> bool {
    |a: char, b: char| a <= b
}

/// The order of letters is total.
pub proof fn lemma_letter_order_is_total()
    ensures
        total_ordering(letter_order()),
{
}

/// A sequence that is in letter order and holds the letters of `letters`,
/// each as often as `letters` does, is `letters` sorted.
pub proof fn lemma_sorted_letters_are_unique(sorted: Seq<char>, letters: Seq<char>)
    requires
        sorted_by(sorted, letter_order()),
        sorted.to_multiset() == letters.to_multiset(),
    ensures
        sorted == letters.sort_by(letter_order()),
{
    lemma_letter_order_is_total();
    letters.lemma_sort_by_ensures(letter_order());
    lemma_sorted_unique(sorted, letters.sort_by(letter_order()), letter_order());
}

/// Sorts `letters` into ascending order, by insertion.
pub fn sort_letters(letters: Vec<char>) -> (sorted: Vec<char>)
    ensures
        sorted@ == letters@.sort_by(letter_order()),
        sorted_by(sorted@, letter_order()),
        sorted@.to_multiset() == letters@.to_multiset(),
{
    let mut sorted: Vec<char> = Vec::new();
    let mut i: usize = 0;
    proof {
        assert(letters@.take(0) =~= sorted@);
    }
    while i < letters.len()
        invariant
            i <= letters.len(),
            sorted_by(sorted@, letter_order()),
            sorted@.to_multiset() == letters@.take(i as int).to_multiset(),
            sorted@.len() == i,
        decreases letters.len() - i,
    {
        let letter = letters[i];
        let mut pos: usize = 0;
        while pos < sorted.len() && sorted[pos] <= letter
            invariant
                pos <= sorted.len(),
                forall|k: int| 0 <= k < pos ==> sorted@[k] <= letter,
            decreases sorted.len() - pos,
        {
            pos += 1;
        }
        proof {
            let before = sorted@;
            let after = before.insert(pos as int, letter);
            assert forall|a: int, b: int| 0 <= a < b < after.len() implies letter_order()(
                after[a],
                after[b],
            ) by {
                if a < pos && b > pos {
                    assert(letter_order()(before[a], before[b - 1]));
                } else if a < pos && b < pos {
                    assert(letter_order()(before[a], before[b]));
                } else if a > pos {
                    assert(letter_order()(before[a - 1], before[b - 1]));
                } else if a == pos {
                    assert(letter_order()(before[pos as int], before[b - 1]) || b - 1 == pos);
                }
            }
            assert(letters@.take(i + 1) =~= letters@.take(i as int).push(letter));
            to_multiset_build(letters@.take(i as int), letter);
            to_multiset_insert(before, pos as int, letter);
        }
        sorted.insert(pos, letter);
        i += 1;
    }
    proof {
        assert(letters@.take(i as int) =~= letters@);
        lemma_sorted_letters_are_unique(sorted@, letters@);
    }
    sorted
}

} // verus!
