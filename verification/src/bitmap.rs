use vstd::prelude::*;

verus! {

/// `roaring::RoaringBitmap` is a compressed set of 32-bit values. Every
/// offset collection of this library is stored in one, and every statement
/// about one goes through `rb_view`, the set of values it holds.
#[verifier::external_type_specification]
#[verifier::external_body]
pub struct ExRoaringBitmap(roaring::RoaringBitmap);

/// The set of 32-bit values a `roaring::RoaringBitmap` holds.
pub uninterp spec fn rb_view(b: roaring::RoaringBitmap) -> Set<u32>;

/// Relies on `RoaringBitmap::new`: the fresh bitmap holds nothing.
#[verifier::external_body]
pub(crate) fn rb_new() -> (r: roaring::RoaringBitmap)
    ensures
        rb_view(r) == Set::<u32>::empty(),
        rb_view(r).finite(),
{
    roaring::RoaringBitmap::new()
}

/// Relies on `RoaringBitmap::insert`: afterwards the bitmap holds the value
/// and everything it held before. A bitmap can hold at most every `u32`, so
/// its contents stay finite.
#[verifier::external_body]
pub(crate) fn rb_insert(b: &mut roaring::RoaringBitmap, x: u32)
    ensures
        rb_view(*final(b)) == rb_view(*old(b)).insert(x),
        rb_view(*final(b)).finite(),
{
    b.insert(x);
}

/// Relies on `RoaringBitmap::contains`.
#[verifier::external_body]
pub(crate) fn rb_contains(b: &roaring::RoaringBitmap, x: u32) -> (r: bool)
    ensures
        r == rb_view(*b).contains(x),
{
    b.contains(x)
}

/// Relies on `RoaringBitmap::len`: the number of values the bitmap holds.
#[verifier::external_body]
pub(crate) fn rb_len(b: &roaring::RoaringBitmap) -> (r: u64)
    ensures
        r == rb_view(*b).len(),
{
    b.len()
}

/// Relies on `BitOr for &RoaringBitmap`: the union of the two bitmaps.
#[verifier::external_body]
pub(crate) fn rb_union(a: &roaring::RoaringBitmap, b: &roaring::RoaringBitmap) -> (r: roaring::RoaringBitmap)
    ensures
        rb_view(r) == rb_view(*a).union(rb_view(*b)),
        rb_view(r).finite(),
{
    a | b
}

/// Relies on `BitAnd for &RoaringBitmap`: the intersection of the two bitmaps.
#[verifier::external_body]
pub(crate) fn rb_intersection(a: &roaring::RoaringBitmap, b: &roaring::RoaringBitmap) -> (r: roaring::RoaringBitmap)
    ensures
        rb_view(r) == rb_view(*a).intersect(rb_view(*b)),
        rb_view(r).finite(),
{
    a & b
}

/// Relies on `Sub for &RoaringBitmap`: the values of the first bitmap that
/// are not in the second.
#[verifier::external_body]
pub(crate) fn rb_difference(a: &roaring::RoaringBitmap, b: &roaring::RoaringBitmap) -> (r: roaring::RoaringBitmap)
    ensures
        rb_view(r) == rb_view(*a).difference(rb_view(*b)),
        rb_view(r).finite(),
{
    a - b
}

/// Relies on `Clone for RoaringBitmap`: the copy holds the same values.
#[verifier::external_body]
pub(crate) fn rb_clone(b: &roaring::RoaringBitmap) -> (r: roaring::RoaringBitmap)
    ensures
        rb_view(r) == rb_view(*b),
        rb_view(r).finite(),
{
    b.clone()
}

/// Relies on `RoaringBitmap::iter`, which yields the values in increasing
/// order, each exactly once.
#[verifier::external_body]
pub(crate) fn rb_to_vec(b: &roaring::RoaringBitmap) -> (r: Vec<u32>)
    ensures
        forall|i: int| 0 <= i < r@.len() ==> rb_view(*b).contains(#[trigger] r@[i]),
        forall|x: u32| rb_view(*b).contains(x) ==> r@.contains(x),
        forall|i: int, j: int| 0 <= i < j < r@.len() ==> r@[i] < r@[j],
{
    b.iter().collect()
}

} // verus!
