use vstd::prelude::*;

use crate::bitmap::{rb_clone, rb_difference, rb_intersection, rb_new, rb_union, rb_view};

verus! {

/// A symbolic set of offsets over the implicit universe of every `u32`:
/// either exactly the values of the inner bitmap (`Include`), or everything
/// except them (`Exclude`). `Include` of the empty bitmap is the empty set;
/// `Exclude` of the empty bitmap is the universe. The universe itself is
/// never materialized.
#[derive(PartialEq, Debug)]
pub enum SignedRoaringBitmap {
    Include(roaring::RoaringBitmap),
    Exclude(roaring::RoaringBitmap),
}

/// The mathematical counterpart of `SignedRoaringBitmap`: a sign and an
/// inner set of offsets.
#[verifier::ext_equal]
pub enum SignedSet {
    Include(Set<u32>),
    Exclude(Set<u32>),
}

impl View for SignedRoaringBitmap {
    type V = SignedSet;

    open spec fn view(&self) -> SignedSet {
        match self {
            SignedRoaringBitmap::Include(b) => SignedSet::Include(rb_view(*b)),
            SignedRoaringBitmap::Exclude(b) => SignedSet::Exclude(rb_view(*b)),
        }
    }
}

impl SignedSet {
    /// The set of offsets this symbolic set denotes.
    pub open spec fn interp(self) -> Set<u32> {
        match self {
            SignedSet::Include(s) => s,
            SignedSet::Exclude(s) => s.complement(),
        }
    }

    /// The empty set in canonical form.
    pub open spec fn empty_spec() -> SignedSet {
        SignedSet::Include(Set::empty())
    }

    /// The universe in canonical form.
    pub open spec fn full_spec() -> SignedSet {
        SignedSet::Exclude(Set::empty())
    }

    /// Union, case by case on the signs.
    pub open spec fn or_spec(self, other: SignedSet) -> SignedSet {
        match (self, other) {
            (SignedSet::Include(x), SignedSet::Include(y)) => SignedSet::Include(x.union(y)),
            (SignedSet::Include(x), SignedSet::Exclude(y)) => SignedSet::Exclude(y.difference(x)),
            (SignedSet::Exclude(x), SignedSet::Include(y)) => SignedSet::Exclude(x.difference(y)),
            (SignedSet::Exclude(x), SignedSet::Exclude(y)) => SignedSet::Exclude(x.intersect(y)),
        }
    }

    /// Intersection, case by case on the signs.
    pub open spec fn and_spec(self, other: SignedSet) -> SignedSet {
        match (self, other) {
            (SignedSet::Include(x), SignedSet::Include(y)) => SignedSet::Include(x.intersect(y)),
            (SignedSet::Include(x), SignedSet::Exclude(y)) => SignedSet::Include(x.difference(y)),
            (SignedSet::Exclude(x), SignedSet::Include(y)) => SignedSet::Include(y.difference(x)),
            (SignedSet::Exclude(x), SignedSet::Exclude(y)) => SignedSet::Exclude(x.union(y)),
        }
    }

    /// Complement: swap the sign on the same inner set.
    pub open spec fn not_spec(self) -> SignedSet {
        match self {
            SignedSet::Include(s) => SignedSet::Exclude(s),
            SignedSet::Exclude(s) => SignedSet::Include(s),
        }
    }
}

impl SignedRoaringBitmap {
    /// The canonical empty set: `Include` of an empty bitmap.
    pub fn empty() -> (r: SignedRoaringBitmap)
        ensures
            r@ == SignedSet::empty_spec(),
    {
        SignedRoaringBitmap::Include(rb_new())
    }

    /// The canonical universe: `Exclude` of an empty bitmap.
    pub fn full() -> (r: SignedRoaringBitmap)
        ensures
            r@ == SignedSet::full_spec(),
    {
        SignedRoaringBitmap::Exclude(rb_new())
    }

    /// Union of two symbolic sets, without materializing the universe.
    pub fn or(&self, other: &SignedRoaringBitmap) -> (r: SignedRoaringBitmap)
        ensures
            r@ == self@.or_spec(other@),
    {
        match (self, other) {
            (SignedRoaringBitmap::Include(x), SignedRoaringBitmap::Include(y)) => {
                SignedRoaringBitmap::Include(rb_union(x, y))
            },
            (SignedRoaringBitmap::Include(x), SignedRoaringBitmap::Exclude(y)) => {
                SignedRoaringBitmap::Exclude(rb_difference(y, x))
            },
            (SignedRoaringBitmap::Exclude(x), SignedRoaringBitmap::Include(y)) => {
                SignedRoaringBitmap::Exclude(rb_difference(x, y))
            },
            (SignedRoaringBitmap::Exclude(x), SignedRoaringBitmap::Exclude(y)) => {
                SignedRoaringBitmap::Exclude(rb_intersection(x, y))
            },
        }
    }

    /// Intersection of two symbolic sets, without materializing the universe.
    pub fn and(&self, other: &SignedRoaringBitmap) -> (r: SignedRoaringBitmap)
        ensures
            r@ == self@.and_spec(other@),
    {
        match (self, other) {
            (SignedRoaringBitmap::Include(x), SignedRoaringBitmap::Include(y)) => {
                SignedRoaringBitmap::Include(rb_intersection(x, y))
            },
            (SignedRoaringBitmap::Include(x), SignedRoaringBitmap::Exclude(y)) => {
                SignedRoaringBitmap::Include(rb_difference(x, y))
            },
            (SignedRoaringBitmap::Exclude(x), SignedRoaringBitmap::Include(y)) => {
                SignedRoaringBitmap::Include(rb_difference(y, x))
            },
            (SignedRoaringBitmap::Exclude(x), SignedRoaringBitmap::Exclude(y)) => {
                SignedRoaringBitmap::Exclude(rb_union(x, y))
            },
        }
    }

    /// Complement: swap `Include` and `Exclude` on the same bitmap.
    pub fn complement(&self) -> (r: SignedRoaringBitmap)
        ensures
            r@ == self@.not_spec(),
    {
        match self {
            SignedRoaringBitmap::Include(b) => SignedRoaringBitmap::Exclude(rb_clone(b)),
            SignedRoaringBitmap::Exclude(b) => SignedRoaringBitmap::Include(rb_clone(b)),
        }
    }
}

/// Union denotes union and intersection denotes intersection of the denoted
/// sets, and the complement denotes the complement.
pub proof fn lemma_ops_interp(x: SignedSet, y: SignedSet)
    ensures
        x.or_spec(y).interp() =~= x.interp().union(y.interp()),
        x.and_spec(y).interp() =~= x.interp().intersect(y.interp()),
        x.not_spec().interp() =~= x.interp().complement(),
{
}

/// Union with the empty set and intersection with the universe return the
/// operand unchanged, in the same canonical form.
pub proof fn lemma_identity(x: SignedSet)
    ensures
        x.or_spec(SignedSet::empty_spec()) == x,
        x.and_spec(SignedSet::full_spec()) == x,
{
    assert(x.or_spec(SignedSet::empty_spec()) =~~= x);
    assert(x.and_spec(SignedSet::full_spec()) =~~= x);
}

/// Intersecting any symbolic set with `Exclude(b)` denotes exactly the
/// denoted set minus `b`.
pub proof fn lemma_and_exclude(x: SignedSet, b: Set<u32>)
    ensures
        x.and_spec(SignedSet::Exclude(b)).interp() =~= x.interp().difference(b),
{
}

/// Taking the complement twice returns the operand unchanged.
pub proof fn lemma_complement_involution(x: SignedSet)
    ensures
        x.not_spec().not_spec() == x,
{
}

/// Intersection distributes over union and union distributes over
/// intersection, down to the canonical form.
pub proof fn lemma_distributive(x: SignedSet, y: SignedSet, z: SignedSet)
    ensures
        x.or_spec(y).and_spec(z) == x.and_spec(z).or_spec(y.and_spec(z)),
        x.and_spec(y).or_spec(z) == x.or_spec(z).and_spec(y.or_spec(z)),
{
    assert(x.or_spec(y).and_spec(z) =~~= x.and_spec(z).or_spec(y.and_spec(z)));
    assert(x.and_spec(y).or_spec(z) =~~= x.or_spec(z).and_spec(y.or_spec(z)));
}

/// Union and intersection are commutative and associative.
pub proof fn lemma_commutative_associative(x: SignedSet, y: SignedSet, z: SignedSet)
    ensures
        x.or_spec(y) == y.or_spec(x),
        x.and_spec(y) == y.and_spec(x),
        x.or_spec(y).or_spec(z) == x.or_spec(y.or_spec(z)),
        x.and_spec(y).and_spec(z) == x.and_spec(y.and_spec(z)),
{
    assert(x.or_spec(y) =~~= y.or_spec(x));
    assert(x.and_spec(y) =~~= y.and_spec(x));
    assert(x.or_spec(y).or_spec(z) =~~= x.or_spec(y.or_spec(z)));
    assert(x.and_spec(y).and_spec(z) =~~= x.and_spec(y.and_spec(z)));
}

} // verus!
