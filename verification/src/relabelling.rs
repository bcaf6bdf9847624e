//! The signature does not depend on how the vertices are numbered.
//!
//! A polygon's vertex list may start at any vertex and run either way round.
//! Both change the numbering only, and so does any other permutation of the
//! indices. This module shows that a renumbered visibility has the signature
//! of the one it was made from, and is interesting exactly when that one is.

use crate::classifier::{interesting, letter, letters, letters_upto, signature};
use crate::profile::{below, lemma_below_step, Visibility};
use crate::sorting::{lemma_letter_order_is_total, letter_order};
use vstd::arithmetic::div_mod::{lemma_mod_add_multiples_vanish, lemma_small_mod};
use vstd::prelude::*;
use vstd::relations::injective_on;
use vstd::seq_lib::{lemma_sorted_unique, to_multiset_build};
use vstd::set_lib::{lemma_map_size, lemma_subset_equality};

verus! {

/// `perm` lists the indices below its length, each once.
pub open spec fn is_permutation(perm: Seq<int>) -> bool {
    &&& forall|i: int| 0 <= i < perm.len() ==> 0 <= #[trigger] perm[i] < perm.len()
    &&& forall|i: int, j: int| 0 <= i < j < perm.len() ==> perm[i] != perm[j]
}

/// The numbering that starts `shift` places further round: new index `i` is
/// old index `(i + shift) % n`.
pub open spec fn rotation(n: nat, shift: nat) -> Seq<int> {
    Seq::new(n, |i: int| (i + shift) % (n as int))
}

/// The numbering that runs the other way round: new index `i` is old index
/// `n - 1 - i`.
pub open spec fn reflection(n: nat) -> Seq<int> {
    Seq::new(n, |i: int| n - 1 - i)
}

/// The visibility `v` with its vertices renumbered: vertex `i` of the
/// result is vertex `perm[i]` of `v`.
pub open spec fn relabelled(v: Visibility, perm: Seq<int>) -> Visibility {
    Visibility {
        visible: Seq::new(
            v.size(),
            |i: int| Seq::new(v.size(), |j: int| v.visible[perm[i]][perm[j]]),
        ),
        members: Seq::new(v.size(), |i: int| v.members[perm[i]]),
        vc_dimension: v.vc_dimension,
        small: v.small,
    }
}

/// Whether index `i` is a subset member with the letter `c`.
pub open spec fn lettered_at(v: Visibility, c: char) -> spec_fn(int) -> bool {
    |i: int| v.members[i] && letter(v.seen_count(i)) == c
}

/// A rotation is a permutation.
pub proof fn lemma_rotation_is_permutation(n: nat, shift: nat)
    requires
        shift < n,
    ensures
        is_permutation(rotation(n, shift)),
        rotation(n, shift).len() == n,
{
    let perm = rotation(n, shift);
    assert forall|i: int| 0 <= i < n implies #[trigger] perm[i] == if i + shift < n {
        i + shift
    } else {
        i + shift - n
    } by {
        if i + shift < n {
            lemma_small_mod((i + shift) as nat, n);
        } else {
            lemma_mod_add_multiples_vanish(i + shift - n, n as int);
            lemma_small_mod((i + shift - n) as nat, n);
        }
    }
}

/// A reflection is a permutation.
pub proof fn lemma_reflection_is_permutation(n: nat)
    ensures
        is_permutation(reflection(n)),
        reflection(n).len() == n,
{
}

/// All `k` indices below `k` are below `k`.
proof fn lemma_below_all(k: int)
    requires
        0 <= k,
    ensures
        below(|i: int| true, k).finite(),
        below(|i: int| true, k).len() == k,
    decreases k,
{
    let all = |i: int| true;
    if k > 0 {
        lemma_below_all(k - 1);
        lemma_below_step(all, k - 1);
    } else {
        lemma_below_step(all, 0);
    }
}

/// A permutation reaches every index: some place of `perm` holds `j`.
pub proof fn lemma_permutation_onto(perm: Seq<int>, j: int) -> (i: int)
    requires
        is_permutation(perm),
        0 <= j < perm.len(),
    ensures
        0 <= i < perm.len(),
        perm[i] == j,
{
    let n = perm.len() as int;
    let all = |i: int| true;
    let full = below(all, n);
    let at = |i: int| perm[i];
    let image = full.map(at);
    lemma_below_all(n);
    assert(injective_on(at, full)) by {
        assert forall|x: int, y: int|
            full.contains(x) && full.contains(y) && #[trigger] at(x) == #[trigger] at(y) implies x
            == y by {
            if x < y {
                assert(perm[x] != perm[y]);
            } else if y < x {
                assert(perm[y] != perm[x]);
            }
        }
    }
    lemma_map_size(full, image, at);
    assert(image.subset_of(full)) by {
        assert forall|b: int| image.contains(b) implies full.contains(b) by {
            let a = choose|a: int| full.contains(a) && b == at(a);
            assert(0 <= perm[a] < n);
        }
    }
    lemma_subset_equality(image, full);
    assert(full.contains(j));
    assert(image.contains(j));
    let i = choose|i: int| full.contains(i) && j == at(i);
    i
}

/// Where `g` holds at `i` exactly when `f` holds at `perm[i]`, the two hold
/// at equally many indices.
pub proof fn lemma_below_relabel(f: spec_fn(int) -> bool, g: spec_fn(int) -> bool, perm: Seq<int>)
    requires
        is_permutation(perm),
        forall|i: int| 0 <= i < perm.len() ==> #[trigger] g(i) == f(perm[i]),
    ensures
        below(g, perm.len() as int).len() == below(f, perm.len() as int).len(),
{
    let n = perm.len() as int;
    let from = below(g, n);
    let to = below(f, n);
    let at = |i: int| perm[i];
    lemma_below_step(g, n);
    lemma_below_step(f, n);
    assert(injective_on(at, from)) by {
        assert forall|x: int, y: int|
            from.contains(x) && from.contains(y) && #[trigger] at(x) == #[trigger] at(y) implies x
            == y by {
            if x < y {
                assert(perm[x] != perm[y]);
            } else if y < x {
                assert(perm[y] != perm[x]);
            }
        }
    }
    assert(from.map(at) =~= to) by {
        assert forall|b: int| from.map(at).contains(b) implies to.contains(b) by {
            let a = choose|a: int| from.contains(a) && b == at(a);
            assert(g(a) == f(perm[a]));
            assert(0 <= perm[a] < n);
        }
        assert forall|b: int| to.contains(b) implies from.map(at).contains(b) by {
            let a = lemma_permutation_onto(perm, b);
            assert(g(a) == f(perm[a]));
            assert(from.contains(a) && b == at(a));
        }
    }
    lemma_map_size(from, to, at);
}

/// Among the letters of the first `k` vertices, `c` comes as often as there
/// are subset members with that letter.
pub proof fn lemma_letters_tally(v: Visibility, k: int, c: char)
    requires
        0 <= k,
    ensures
        letters_upto(v, k).to_multiset().count(c) == below(lettered_at(v, c), k).len(),
    decreases k,
{
    broadcast use vstd::multiset::group_multiset_axioms;

    if k == 0 {
        lemma_below_step(lettered_at(v, c), 0);
        letters_upto(v, 0).to_multiset_ensures();
        assert(letters_upto(v, 0).to_multiset().len() == 0);
    } else {
        lemma_letters_tally(v, k - 1, c);
        lemma_below_step(lettered_at(v, c), k - 1);
        if v.members[k - 1] {
            to_multiset_build(letters_upto(v, k - 1), letter(v.seen_count(k - 1)));
        }
    }
}

/// Renumbering the vertices changes nothing that the classifier reports:
/// the renumbered visibility is well-formed when `v` is, and has the
/// signature of `v` and the verdict of `v` on being interesting.
pub proof fn lemma_signature_ignores_numbering(v: Visibility, perm: Seq<int>)
    requires
        is_permutation(perm),
        perm.len() == v.size(),
    ensures
        signature(relabelled(v, perm)) == signature(v),
        interesting(relabelled(v, perm)) == interesting(v),
        v.well_formed() ==> relabelled(v, perm).well_formed(),
{
    let w = relabelled(v, perm);
    let n = v.size() as int;
    assert forall|i: int| 0 <= i < n implies w.seen_count(i) == v.seen_count(perm[i]) by {
        lemma_below_relabel(v.seen_at(perm[i]), w.seen_at(i), perm);
    }
    assert forall|c: char|
        letters(w).to_multiset().count(c) == letters(v).to_multiset().count(c) by {
        lemma_letters_tally(w, n, c);
        lemma_letters_tally(v, n, c);
        lemma_below_relabel(lettered_at(v, c), lettered_at(w, c), perm);
    }
    assert(letters(w).to_multiset() =~= letters(v).to_multiset());
    lemma_letter_order_is_total();
    letters(w).lemma_sort_by_ensures(letter_order());
    letters(v).lemma_sort_by_ensures(letter_order());
    lemma_sorted_unique(signature(w), signature(v), letter_order());
    lemma_below_relabel(v.member_at(), w.member_at(), perm);
}

/// Starting the vertex list at another vertex keeps the signature.
pub proof fn lemma_signature_ignores_rotation(v: Visibility, shift: nat)
    requires
        shift < v.size(),
    ensures
        signature(relabelled(v, rotation(v.size(), shift))) == signature(v),
{
    lemma_rotation_is_permutation(v.size(), shift);
    lemma_signature_ignores_numbering(v, rotation(v.size(), shift));
}

/// Listing the vertices the other way round keeps the signature.
pub proof fn lemma_signature_ignores_reflection(v: Visibility)
    ensures
        signature(relabelled(v, reflection(v.size()))) == signature(v),
{
    lemma_reflection_is_permutation(v.size());
    lemma_signature_ignores_numbering(v, reflection(v.size()));
}

} // verus!
