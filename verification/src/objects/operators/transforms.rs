//! Transforms: a field seen through a map of space. Each maps the point at which it is asked
//! into the frame of its field, and asks there.

use vstd::prelude::*;
use math_vector::Vector;
use crate::fixed::{Fixed, plus, times};
use crate::objects::SignedDistanceField;
use crate::vector::{
    Point, difference, is_point, opposite, point, rotate, rotated, vector_difference,
};

verus! {

/// A field moved by the offset `p`.
pub struct Translate<'a> {
    /// The offset by which the field is moved
    pub p: Vector<Fixed>,
    /// The field that is moved
    pub sdf: Box<&'a dyn SignedDistanceField>,
}

impl SignedDistanceField for Translate<'_> {
    /// The distance of the field at the point less the offset.
    open spec fn distance(&self, p: Point) -> int {
        self.sdf.distance(difference(p, point(self.p)))
    }

    fn call(&self, p: Vector<Fixed>) -> (d: Fixed) {
        self.sdf.call(vector_difference(p, self.p))
    }
}

/// A field turned about an axis. The angle is given by its cosine and its sine.
pub struct Rotate<'a> {
    /// Cosine of the angle by which the point is turned
    pub cos: Fixed,
    /// Sine of the angle by which the point is turned
    pub sin: Fixed,
    /// The axis about which the point is turned
    pub axis: Vector<Fixed>,
    /// The field that is turned
    pub sdf: Box<&'a dyn SignedDistanceField>,
}

impl SignedDistanceField for Rotate<'_> {
    /// The distance of the field at the turned point.
    open spec fn distance(&self, p: Point) -> int {
        self.sdf.distance(rotated(p, self.cos@, self.sin@, point(self.axis)))
    }

    fn call(&self, p: Vector<Fixed>) -> (d: Fixed) {
        self.sdf.call(rotate(p, self.cos, self.sin, self.axis))
    }
}

/// A field scaled along the x and y axes. The distances it returns are those of the field
/// at the scaled point, and so are true distances only where both factors are one.
pub struct Scale<'a> {
    /// The factors by which the x and y coordinates are multiplied
    pub scale: Vector<Fixed>,
    /// The field that is scaled
    pub sdf: Box<&'a dyn SignedDistanceField>,
}

impl Scale<'_> {
    /// The point at which the field is asked.
    pub open spec fn scaled_point(&self, p: Point) -> Point {
        Point { x: times(p.x, self.scale.x@), y: times(p.y, self.scale.y@), z: 0 }
    }
}

impl SignedDistanceField for Scale<'_> {
    /// The distance of the field at the point with its coordinates multiplied by the
    /// factors, in the plane `z = 0`.
    open spec fn distance(&self, p: Point) -> int {
        self.sdf.distance(self.scaled_point(p))
    }

    fn call(&self, p: Vector<Fixed>) -> (d: Fixed) {
        self.sdf.call(
            Vector {
                x: p.x.saturating_mul(self.scale.x),
                y: p.y.saturating_mul(self.scale.y),
                z: Fixed::zero(),
            },
        )
    }
}

/// A field seen through a linear map of the plane, given by its 2x2 matrix.
pub struct Matrix<'a> {
    /// The matrix, row by row
    pub matrix: [[Fixed; 2]; 2],
    /// The field that is mapped
    pub sdf: Box<&'a dyn SignedDistanceField>,
}

impl Matrix<'_> {
    /// The product of the matrix and the point, in the plane `z = 0`.
    pub open spec fn mapped_point(&self, p: Point) -> Point {
        Point {
            x: plus(times(self.matrix[0][0]@, p.x), times(self.matrix[0][1]@, p.y)),
            y: plus(times(self.matrix[1][0]@, p.x), times(self.matrix[1][1]@, p.y)),
            z: 0,
        }
    }
}

impl SignedDistanceField for Matrix<'_> {
    /// The distance of the field at the product of the matrix and the point.
    open spec fn distance(&self, p: Point) -> int {
        self.sdf.distance(self.mapped_point(p))
    }

    fn call(&self, p: Vector<Fixed>) -> (d: Fixed) {
        self.sdf.call(
            Vector {
                x: self.matrix[0][0].saturating_mul(p.x).saturating_add(
                    self.matrix[0][1].saturating_mul(p.y),
                ),
                y: self.matrix[1][0].saturating_mul(p.x).saturating_add(
                    self.matrix[1][1].saturating_mul(p.y),
                ),
                z: Fixed::zero(),
            },
        )
    }
}

/// Moving a field by `v` and then back by `-v` gives the field again, at every point `p`
/// that the move back does not carry out of the range.
pub proof fn lemma_translate_round_trip(
    a: Box<&dyn SignedDistanceField>,
    v: Vector<Fixed>,
    p: Point,
)
    requires
        is_point(point(v)),
        is_point(p),
        is_point((Point { x: p.x + v.x@, y: p.y + v.y@, z: p.z + v.z@ })),
    ensures
        (Translate { p: opposite(v), sdf: Box::new(&Translate { p: v, sdf: a }) }).distance(p)
            == a.distance(p),
{
    let w = opposite(v);
    Fixed::lemma_view_of_with_raw(-v.x@);
    Fixed::lemma_view_of_with_raw(-v.y@);
    Fixed::lemma_view_of_with_raw(-v.z@);
    let q = difference(p, point(w));
    assert(difference(q, point(v)) == p);
}

} // verus!
