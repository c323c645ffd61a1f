//! Boolean operators: union, intersection, difference and complement of shapes.

use vstd::prelude::*;
use math_vector::Vector;
use crate::fixed::{Fixed, greater, lesser};
use crate::objects::SignedDistanceField;
use crate::vector::Point;

verus! {

/// The union of two shapes (`a ∪ b`).
pub struct Union<'a> {
    /// The one part of the union
    pub a: Box<&'a dyn SignedDistanceField>,
    /// The other part of the union
    pub b: Box<&'a dyn SignedDistanceField>,
}

impl SignedDistanceField for Union<'_> {
    /// The smaller of the two distances.
    open spec fn distance(&self, p: Point) -> int {
        lesser(self.a.distance(p), self.b.distance(p))
    }

    fn call(&self, p: Vector<Fixed>) -> (d: Fixed) {
        self.a.call(p).min(self.b.call(p))
    }
}

/// The intersection of two shapes (`a ∩ b`).
pub struct Intersection<'a> {
    /// The one part of the intersection
    pub a: Box<&'a dyn SignedDistanceField>,
    /// The other part of the intersection
    pub b: Box<&'a dyn SignedDistanceField>,
}

impl SignedDistanceField for Intersection<'_> {
    /// The larger of the two distances.
    open spec fn distance(&self, p: Point) -> int {
        greater(self.a.distance(p), self.b.distance(p))
    }

    fn call(&self, p: Vector<Fixed>) -> (d: Fixed) {
        self.a.call(p).max(self.b.call(p))
    }
}

/// The difference of two shapes (`a \ b`): what is inside `a` and outside `b`.
pub struct Difference<'a> {
    /// The shape to take away from
    pub a: Box<&'a dyn SignedDistanceField>,
    /// The shape that is taken away
    pub b: Box<&'a dyn SignedDistanceField>,
}

impl SignedDistanceField for Difference<'_> {
    /// The larger of the distance of `a` and the negated distance of `b`.
    open spec fn distance(&self, p: Point) -> int {
        greater(self.a.distance(p), -self.b.distance(p))
    }

    fn call(&self, p: Vector<Fixed>) -> (d: Fixed) {
        self.a.call(p).max(self.b.call(p).neg())
    }
}

/// The complement of a shape: inside and outside change places.
pub struct Not<'a> {
    /// The shape that is complemented
    pub sdf: Box<&'a dyn SignedDistanceField>,
}

impl SignedDistanceField for Not<'_> {
    /// The negated distance.
    open spec fn distance(&self, p: Point) -> int {
        -self.sdf.distance(p)
    }

    fn call(&self, p: Vector<Fixed>) -> (d: Fixed) {
        self.sdf.call(p).neg()
    }
}

/// A point is inside the union of two shapes where it is inside one of them, and outside
/// where it is outside both.
pub proof fn lemma_union_sign(u: Union, p: Point)
    ensures
        u.distance(p) < 0 <==> u.a.distance(p) < 0 || u.b.distance(p) < 0,
        u.distance(p) > 0 <==> u.a.distance(p) > 0 && u.b.distance(p) > 0,
{
}

/// A point is inside the intersection of two shapes where it is inside both, and outside
/// where it is outside one of them.
pub proof fn lemma_intersection_sign(i: Intersection, p: Point)
    ensures
        i.distance(p) < 0 <==> i.a.distance(p) < 0 && i.b.distance(p) < 0,
        i.distance(p) > 0 <==> i.a.distance(p) > 0 || i.b.distance(p) > 0,
{
}

/// A point is inside the difference of two shapes where it is inside the first and outside
/// the second, and outside where it is outside the first or inside the second.
pub proof fn lemma_difference_sign(d: Difference, p: Point)
    ensures
        d.distance(p) < 0 <==> d.a.distance(p) < 0 && d.b.distance(p) > 0,
        d.distance(p) > 0 <==> d.a.distance(p) > 0 || d.b.distance(p) < 0,
{
}

/// A point is inside the complement of a shape where it is outside the shape, and outside
/// where it is inside.
pub proof fn lemma_complement_sign(n: Not, p: Point)
    ensures
        n.distance(p) < 0 <==> n.sdf.distance(p) > 0,
        n.distance(p) > 0 <==> n.sdf.distance(p) < 0,
        n.distance(p) == 0 <==> n.sdf.distance(p) == 0,
{
}

/// The union of a shape with itself is that shape.
pub proof fn lemma_union_idempotent(a: Box<&dyn SignedDistanceField>, p: Point)
    ensures
        (Union { a: a, b: a }).distance(p) == a.distance(p),
{
}

/// The intersection of a shape with itself is that shape.
pub proof fn lemma_intersection_idempotent(a: Box<&dyn SignedDistanceField>, p: Point)
    ensures
        (Intersection { a: a, b: a }).distance(p) == a.distance(p),
{
}

/// The complement of the complement of a shape is that shape.
pub proof fn lemma_double_negation(a: Box<&dyn SignedDistanceField>, p: Point)
    ensures
        (Not { sdf: Box::new(&Not { sdf: a }) }).distance(p) == a.distance(p),
{
}

} // verus!
