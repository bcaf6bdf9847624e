//! The signature of a shattered subset, and the test for novelty.
//!
//! Every vertex of the chosen maximum shattered subset gets a letter for the
//! number of subset members that it sees: `a` for one, `b` for two, and so
//! on. The letters, sorted, are the signature. It tells apart subsets whose
//! members see each other in different patterns, and does not depend on how
//! the vertices are numbered.

use crate::profile::{
    below, lemma_below_step, lemma_seen_count_bound, Visibility, VisibilityProfile,
};
use crate::sorting::{letter_order, sort_letters};
use vstd::prelude::*;
use vstd::string::StringExecFns;

verus! {

/// The letter that stands for `count`: the character with code
/// `96 + count`, which is `a` for 1 and `b` for 2.
pub open spec fn letter(count: nat) -> char {
    ((96 + count) as u8) as char
}

/// The letters of the subset members among the first `k` vertices, in the
/// order of the vertices.
pub open spec fn letters_upto(v: Visibility, k: int) -> Seq<char>
    decreases k,
{
    if k <= 0 {
        Seq::empty()
    } else if v.members[k - 1] {
        letters_upto(v, k - 1).push(letter(v.seen_count(k - 1)))
    } else {
        letters_upto(v, k - 1)
    }
}

/// The letters of all subset members, in the order of the vertices.
pub open spec fn letters(v: Visibility) -> Seq<char> {
    letters_upto(v, v.size() as int)
}

/// The signature: the letters of the subset members in ascending order.
pub open spec fn signature(v: Visibility) -> Seq<char> {
    letters(v).sort_by(letter_order())
}

/// Whether `signature` is one of the two that are already catalogued for
/// VC-dimension 4.
pub open spec fn catalogued(signature: Seq<char>) -> bool {
    signature == "aaaa"@ || signature == "abbc"@
}

/// Whether a polygon with this visibility is worth keeping: always from
/// VC-dimension 5 on, never below 4, and at 4 when it is small and its
/// signature is not catalogued.
pub open spec fn interesting(v: Visibility) -> bool {
    if v.vc_dimension >= 5 {
        true
    } else if v.vc_dimension == 4 {
        v.small && !catalogued(signature(v))
    } else {
        false
    }
}

/// Counts the subset members that vertex `i` sees.
fn count_seen(profile: &VisibilityProfile, i: usize) -> (count: usize)
    requires
        i < profile@.size(),
    ensures
        count == profile@.seen_count(i as int),
{
    let size = profile.size();
    let mut count: usize = 0;
    let mut j: usize = 0;
    proof {
        lemma_below_step(profile@.seen_at(i as int), 0);
    }
    while j < size
        invariant
            j <= size,
            size == profile@.size(),
            i < size,
            count == below(profile@.seen_at(i as int), j as int).len(),
            count <= j,
        decreases size - j,
    {
        proof {
            lemma_below_step(profile@.seen_at(i as int), j as int);
        }
        if profile.is_member(j) && profile.sees(i, j) {
            count += 1;
        }
        j += 1;
    }
    count
}

/// Computes the signature of the profile's shattered subset.
pub fn visibility_structure_simplified(profile: &VisibilityProfile) -> (text: String)
    ensures
        text@ == signature(profile@),
{
    let size = profile.size();
    let mut found: Vec<char> = Vec::new();
    let mut i: usize = 0;
    while i < size
        invariant
            i <= size,
            size == profile@.size(),
            found@ == letters_upto(profile@, i as int),
        decreases size - i,
    {
        if profile.is_member(i) {
            let count = count_seen(profile, i);
            proof {
                use_type_invariant(profile);
                lemma_seen_count_bound(profile@, i as int);
            }
            let code: u8 = 96 + (count as u8);
            found.push(code as char);
        }
        i += 1;
    }
    let sorted = sort_letters(found);
    let mut text = String::new();
    let mut k: usize = 0;
    while k < sorted.len()
        invariant
            k <= sorted.len(),
            text@ == sorted@.take(k as int),
        decreases sorted.len() - k,
    {
        text.push(sorted[k]);
        proof {
            assert(sorted@.take(k + 1) =~= sorted@.take(k as int).push(sorted@[k as int]));
        }
        k += 1;
    }
    proof {
        assert(sorted@.take(k as int) =~= sorted@);
    }
    text
}

/// Whether the profile is a small witness of VC-dimension 4 whose signature
/// is not one of the catalogued two.
pub fn has_unexpected_visibility_string(profile: &VisibilityProfile) -> (unexpected: bool)
    ensures
        unexpected == (profile@.vc_dimension == 4 && profile@.small && !catalogued(
            signature(profile@),
        )),
{
    let text = visibility_structure_simplified(profile);
    let first = String::from_str("aaaa");
    let second = String::from_str("abbc");
    profile.vc_dimension() == 4 && profile.is_small() && !(text == first) && !(text == second)
}

/// Whether the profile is worth exporting.
pub fn is_interesting(profile: &VisibilityProfile) -> (keep: bool)
    ensures
        keep == interesting(profile@),
        profile@.vc_dimension >= 5 ==> keep,
        profile@.vc_dimension <= 3 ==> !keep,
        profile@.vc_dimension == 4 ==> (keep <==> profile@.small && signature(profile@) != "aaaa"@
            && signature(profile@) != "abbc"@),
{
    let vc_dimension = profile.vc_dimension();
    if vc_dimension >= 5 {
        true
    } else if vc_dimension == 4 {
        has_unexpected_visibility_string(profile)
    } else {
        false
    }
}

} // verus!
