//! What the classifier reads of a polygon's visibility system.
//!
//! A visibility system is computed elsewhere, from a polygon. This module
//! keeps the part of it that the rest of the crate looks at: which vertex
//! sees which, which vertices form the chosen maximum shattered subset, the
//! VC-dimension and the verdict on smallness.

use vstd::prelude::*;

verus! {

/// The largest shattered subset that a profile can carry.
///
/// A signature letter stands for the number of subset members that a vertex
/// sees and is written as the byte `96 + count`, so the count must stay at
/// or below 159.
pub const MAX_SUBSET: usize = 159;

/// The indices below `k` at which `f` holds.
pub open spec fn below(f: spec_fn(int) -> bool, k: int) -> Set<int> {
    Set::new(|j: int| 0 <= j < k && f(j))
}

/// The indices below `k` at which `f` holds are finitely many, at most `k`,
/// and one more index adds one of them exactly when `f` holds there.
pub proof fn lemma_below_step(f: spec_fn(int) -> bool, k: int)
    requires
        0 <= k,
    ensures
        below(f, k).finite(),
        below(f, k).len() <= k,
        below(f, k + 1).finite(),
        below(f, k + 1).len() == below(f, k).len() + if f(k) {
            1int
        } else {
            0int
        },
    decreases k,
{
    if k == 0 {
        assert(below(f, 0) =~= Set::<int>::empty());
    } else {
        lemma_below_step(f, k - 1);
    }
    if f(k) {
        assert(below(f, k + 1) =~= below(f, k).insert(k));
    } else {
        assert(below(f, k + 1) =~= below(f, k));
    }
}

/// Where `f` implies `g`, `f` holds at no more indices below `k` than `g`.
pub proof fn lemma_below_monotone(f: spec_fn(int) -> bool, g: spec_fn(int) -> bool, k: int)
    requires
        0 <= k,
        forall|j: int| 0 <= j < k && #[trigger] f(j) ==> g(j),
    ensures
        below(f, k).len() <= below(g, k).len(),
{
    lemma_below_step(f, k);
    lemma_below_step(g, k);
    assert(below(f, k).subset_of(below(g, k)));
    vstd::set_lib::lemma_len_subset(below(f, k), below(g, k));
}

/// The visibility of a polygon's vertices, as plain values.
pub struct Visibility {
    /// `visible[i][j]` says whether vertex `i` sees vertex `j`.
    pub visible: Seq<Seq<bool>>,
    /// `members[i]` says whether vertex `i` is in the chosen maximum
    /// shattered subset.
    pub members: Seq<bool>,
    /// The size of the largest shattered subset.
    pub vc_dimension: nat,
    /// Whether the polygon is as small as can be for its VC-dimension.
    pub small: bool,
}

impl Visibility {
    /// The number of vertices.
    pub open spec fn size(self) -> nat {
        self.members.len()
    }

    /// Whether index `j` is in the subset.
    pub open spec fn member_at(self) -> spec_fn(int) -> bool {
        |j: int| self.members[j]
    }

    /// Whether index `j` is a subset member that vertex `i` sees.
    pub open spec fn seen_at(self, i: int) -> spec_fn(int) -> bool {
        |j: int| self.members[j] && self.visible[i][j]
    }

    /// The vertices of the subset.
    pub open spec fn subset(self) -> Set<int> {
        below(self.member_at(), self.size() as int)
    }

    /// The subset members that vertex `i` sees. Vertex `i` itself is among
    /// them exactly when it is a member and `visible[i][i]` holds.
    pub open spec fn seen_by(self, i: int) -> Set<int> {
        below(self.seen_at(i), self.size() as int)
    }

    /// The number of subset members that vertex `i` sees.
    pub open spec fn seen_count(self, i: int) -> nat {
        self.seen_by(i).len()
    }

    /// The matrix is square, as wide as there are vertices, and the subset
    /// has at most [`MAX_SUBSET`] members.
    pub open spec fn well_formed(self) -> bool {
        &&& self.visible.len() == self.size()
        &&& forall|i: int|
            0 <= i < self.size() ==> (#[trigger] self.visible[i]).len() == self.size()
        &&& self.subset().len() <= MAX_SUBSET
    }
}

/// No vertex sees more subset members than there are.
pub proof fn lemma_seen_count_bound(v: Visibility, i: int)
    ensures
        v.seen_count(i) <= v.subset().len(),
{
    lemma_below_monotone(v.seen_at(i), v.member_at(), v.size() as int);
}

/// The rows of a matrix, each as a sequence.
pub open spec fn rows(visible: Seq<Vec<bool>>) -> Seq<Seq<bool>> {
    Seq::new(visible.len(), |i: int| visible[i]@)
}

/// The visibility that the given parts describe.
pub open spec fn described(
    visible: Seq<Vec<bool>>,
    members: Seq<bool>,
    vc_dimension: usize,
    small: bool,
) -> Visibility {
    Visibility { visible: rows(visible), members, vc_dimension: vc_dimension as nat, small }
}

/// A well-formed [`Visibility`], held in vectors.
pub struct VisibilityProfile {
    visible: Vec<Vec<bool>>,
    members: Vec<bool>,
    vc_dimension: usize,
    small: bool,
}

impl View for VisibilityProfile {
    type V = Visibility;

    closed spec fn view(&self) -> Visibility {
        Visibility {
            visible: rows(self.visible@),
            members: self.members@,
            vc_dimension: self.vc_dimension as nat,
            small: self.small,
        }
    }
}

impl VisibilityProfile {
    /// Every profile is well-formed.
    #[verifier::type_invariant]
    pub open spec fn inv(&self) -> bool {
        self@.well_formed()
    }

    /// Makes a profile of a visibility matrix, the subset's membership
    /// flags, the VC-dimension and the smallness verdict. There is none
    /// where the matrix is not square and as wide as `members` is long, or
    /// where more than [`MAX_SUBSET`] vertices are members.
    pub fn new(
        visible: Vec<Vec<bool>>,
        members: Vec<bool>,
        vc_dimension: usize,
        small: bool,
    ) -> (made: Option<Self>)
        ensures
            made is Some <==> described(visible@, members@, vc_dimension, small).well_formed(),
            made matches Some(profile) ==> profile@ == described(
                visible@,
                members@,
                vc_dimension,
                small,
            ),
    {
        let ghost model = described(visible@, members@, vc_dimension, small);
        let size = members.len();
        if visible.len() != size {
            return None;
        }
        let mut i: usize = 0;
        while i < size
            invariant
                i <= size,
                size == members@.len(),
                visible@.len() == size,
                model.visible == rows(visible@),
                model.members == members@,
                forall|k: int| 0 <= k < i ==> (#[trigger] visible@[k])@.len() == size,
            decreases size - i,
        {
            if visible[i].len() != size {
                proof {
                    assert(model.visible[i as int] == visible@[i as int]@);
                }
                return None;
            }
            i += 1;
        }
        let mut count: usize = 0;
        let mut j: usize = 0;
        proof {
            lemma_below_step(model.member_at(), 0);
        }
        while j < size
            invariant
                j <= size,
                size == members@.len(),
                model.members == members@,
                count == below(model.member_at(), j as int).len(),
                count <= j,
            decreases size - j,
        {
            proof {
                lemma_below_step(model.member_at(), j as int);
            }
            if members[j] {
                count += 1;
            }
            j += 1;
        }
        if count > MAX_SUBSET {
            return None;
        }
        proof {
            assert forall|k: int| 0 <= k < model.size() implies (#[trigger] model.visible[k]).len()
                == model.size() by {
                assert(model.visible[k] == visible@[k]@);
            }
        }
        Some(VisibilityProfile { visible, members, vc_dimension, small })
    }

    /// The number of vertices.
    pub fn size(&self) -> (size: usize)
        ensures
            size == self@.size(),
    {
        self.members.len()
    }

    /// The VC-dimension.
    pub fn vc_dimension(&self) -> (dimension: usize)
        ensures
            dimension == self@.vc_dimension,
    {
        self.vc_dimension
    }

    /// Whether the polygon is as small as can be for its VC-dimension.
    pub fn is_small(&self) -> (small: bool)
        ensures
            small == self@.small,
    {
        self.small
    }

    /// Whether vertex `i` is in the subset.
    pub fn is_member(&self, i: usize) -> (member: bool)
        requires
            i < self@.size(),
        ensures
            member == self@.members[i as int],
    {
        self.members[i]
    }

    /// Whether vertex `i` sees vertex `j`.
    pub fn sees(&self, i: usize, j: usize) -> (seen: bool)
        requires
            i < self@.size(),
            j < self@.size(),
        ensures
            seen == self@.visible[i as int][j as int],
    {
        proof {
            use_type_invariant(self);
            assert(self@.visible[i as int] == self.visible@[i as int]@);
        }
        self.visible[i][j]
    }
}

} // verus!
