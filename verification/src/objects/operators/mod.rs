//! Operators: fields made from other fields.

use vstd::prelude::*;
use math_vector::Vector;
use crate::fixed::{Fixed, in_range, minus, plus};
use crate::objects::SignedDistanceField;
use crate::vector::Point;

pub mod boolean;
pub mod transforms;

verus! {

/// Moves the boundary of a field outwards by `k`, or inwards where `k` is negative.
pub struct Smooth {
    /// The field whose boundary is moved
    pub sdf: Box<dyn SignedDistanceField>,
    /// How far the boundary is moved
    pub k: Fixed,
}

impl SignedDistanceField for Smooth {
    /// The distance of the field less `k`.
    open spec fn distance(&self, p: Point) -> int {
        minus(self.sdf.distance(p), self.k@)
    }

    fn call(&self, p: Vector<Fixed>) -> (d: Fixed) {
        self.sdf.call(p).saturating_sub(self.k)
    }
}

/// Moving a boundary by `k1` and then by `k2` moves it by `k1 + k2`: where neither step
/// leaves the range, the distance is that of the innermost field less `k1 + k2`, and is
/// that of a single `Smooth` by the sum.
pub proof fn lemma_smooth_composes(inner: Smooth, k2: Fixed, p: Point)
    requires
        in_range(inner.sdf.distance(p)),
        in_range(inner.k@),
        in_range(k2@),
        in_range(inner.sdf.distance(p) - inner.k@),
        in_range(inner.sdf.distance(p) - inner.k@ - k2@),
    ensures
        (Smooth { sdf: Box::new(inner), k: k2 }).distance(p) == inner.sdf.distance(p) - (inner.k@
            + k2@),
        in_range(inner.k@ + k2@) ==> (Smooth { sdf: Box::new(inner), k: k2 }).distance(p) == minus(
            inner.sdf.distance(p),
            plus(inner.k@, k2@),
        ),
{
}

} // verus!
