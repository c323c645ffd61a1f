//! Primitive shapes, each with the closed form of its distance.

use vstd::prelude::*;
use math_vector::Vector;
use crate::fixed::{Fixed, HALF_RAW, clamp, greater, in_range, magnitude, minus, plus, times};
use crate::objects::SignedDistanceField;
use crate::sqrt::{lemma_floor_sqrt_exists, lemma_floor_sqrt_of_square};
use crate::vector::{Point, difference, length, norm, point, vector_difference};

verus! {

/// A rectangle of width `w` and height `h`, centred at the origin, its sides along the axes.
pub struct Rectangle {
    /// Width
    pub w: Fixed,
    /// Height
    pub h: Fixed,
}

impl Rectangle {
    /// How far `p` lies beyond the right or left edge (`x`) and beyond the upper or lower
    /// edge (`y`); negative where it lies within.
    pub open spec fn edge_distance(&self, p: Point) -> Point {
        Point {
            x: minus(magnitude(p.x), times(HALF_RAW as int, self.w@)),
            y: minus(magnitude(p.y), times(HALF_RAW as int, self.h@)),
            z: 0,
        }
    }
}

impl SignedDistanceField for Rectangle {
    /// The length of the part of the edge distance that lies outside, plus the larger
    /// component of the edge distance.
    open spec fn distance(&self, p: Point) -> int {
        let edge = self.edge_distance(p);
        let outside = clamp(norm(Point { x: greater(edge.x, 0), y: greater(edge.y, 0), z: 0 }));
        let inside = greater(edge.x, edge.y);
        plus(outside, inside)
    }

    fn call(&self, p: Vector<Fixed>) -> (d: Fixed) {
        let half_size = Vector {
            x: Fixed::half().saturating_mul(self.w),
            y: Fixed::half().saturating_mul(self.h),
            z: Fixed::zero(),
        };
        let component_wise_edge_distance = Vector {
            x: p.x.abs().saturating_sub(half_size.x),
            y: p.y.abs().saturating_sub(half_size.y),
            z: Fixed::zero(),
        };
        let outside_distance = length(
            Vector {
                x: component_wise_edge_distance.x.max(Fixed::zero()),
                y: component_wise_edge_distance.y.max(Fixed::zero()),
                z: Fixed::zero(),
            },
        );
        let inside_distance = component_wise_edge_distance.x.max(component_wise_edge_distance.y);
        outside_distance.saturating_add(inside_distance)
    }
}

/// A rectangle is negative where the point lies within both pairs of edges, zero where it
/// lies on an edge and within the other pair, and positive elsewhere: the sign of its
/// distance is that of the larger component of the edge distance.
pub proof fn lemma_rectangle_sign(rectangle: Rectangle, p: Point)
    ensures
        rectangle.distance(p) < 0 <==> greater(
            rectangle.edge_distance(p).x,
            rectangle.edge_distance(p).y,
        ) < 0,
        rectangle.distance(p) == 0 <==> greater(
            rectangle.edge_distance(p).x,
            rectangle.edge_distance(p).y,
        ) == 0,
        rectangle.distance(p) > 0 <==> greater(
            rectangle.edge_distance(p).x,
            rectangle.edge_distance(p).y,
        ) > 0,
{
    let edge = rectangle.edge_distance(p);
    let x = greater(edge.x, 0);
    let y = greater(edge.y, 0);
    let squares = x * x + y * y + 0 * 0;
    assert(0 <= squares) by (nonlinear_arith)
        requires
            squares == x * x + y * y + 0 * 0,
    ;
    lemma_floor_sqrt_exists(squares);
    if greater(edge.x, edge.y) <= 0 {
        assert(squares == 0) by (nonlinear_arith)
            requires
                x == 0,
                y == 0,
                squares == x * x + y * y + 0 * 0,
        ;
        lemma_floor_sqrt_of_square(0);
    }
}

/// A circle of radius `r` about the origin.
pub struct Circle {
    /// Radius
    pub r: Fixed,
}

impl SignedDistanceField for Circle {
    /// The length of `p` less the radius.
    open spec fn distance(&self, p: Point) -> int {
        minus(clamp(norm(p)), self.r@)
    }

    fn call(&self, p: Vector<Fixed>) -> (d: Fixed) {
        length(p).saturating_sub(self.r)
    }
}

/// Where neither the length nor the difference leaves the range, the distance of a circle
/// is exactly the length of the point less the radius.
pub proof fn lemma_circle_distance(circle: Circle, p: Point)
    requires
        in_range(norm(p)),
        in_range(norm(p) - circle.r@),
    ensures
        circle.distance(p) == norm(p) - circle.r@,
{
}

/// A circle is negative inside, zero on its boundary and positive outside: the sign of its
/// distance is that of the length of the point less the radius.
pub proof fn lemma_circle_sign(circle: Circle, p: Point)
    requires
        in_range(circle.r@),
        in_range(norm(p)),
    ensures
        circle.distance(p) < 0 <==> norm(p) < circle.r@,
        circle.distance(p) == 0 <==> norm(p) == circle.r@,
        circle.distance(p) > 0 <==> norm(p) > circle.r@,
{
}

/// The infinite straight line along the x axis.
pub struct Straight {}

impl SignedDistanceField for Straight {
    /// The distance from the x axis.
    open spec fn distance(&self, p: Point) -> int {
        magnitude(p.y)
    }

    fn call(&self, p: Vector<Fixed>) -> (d: Fixed) {
        p.y.abs()
    }
}

/// The segment of length `l` on the x axis, centred at the origin.
pub struct Line {
    /// Length of the line
    pub l: Fixed,
}

impl Line {
    /// The x coordinate of the left end.
    pub open spec fn left_end(&self) -> int {
        times(-(HALF_RAW as int), self.l@)
    }

    /// The x coordinate of the right end.
    pub open spec fn right_end(&self) -> int {
        times(HALF_RAW as int, self.l@)
    }
}

impl SignedDistanceField for Line {
    /// Left of the segment the distance to its left end, right of it the distance to its
    /// right end, and between the two the distance from the x axis.
    open spec fn distance(&self, p: Point) -> int {
        if self.left_end() > p.x {
            clamp(norm(difference(Point { x: self.left_end(), y: 0, z: 0 }, p)))
        } else if p.x > self.right_end() {
            clamp(norm(difference(Point { x: self.right_end(), y: 0, z: 0 }, p)))
        } else {
            magnitude(p.y)
        }
    }

    fn call(&self, p: Vector<Fixed>) -> (d: Fixed) {
        let left = Fixed::half().neg().saturating_mul(self.l);
        let right = Fixed::half().saturating_mul(self.l);
        if left.gt(p.x) {
            length(vector_difference(Vector { x: left, y: Fixed::zero(), z: Fixed::zero() }, p))
        } else if p.x.gt(right) {
            length(vector_difference(Vector { x: right, y: Fixed::zero(), z: Fixed::zero() }, p))
        } else {
            p.y.abs()
        }
    }
}

/// The half-plane below the x axis.
pub struct Plane {}

impl SignedDistanceField for Plane {
    /// The height above the x axis.
    open spec fn distance(&self, p: Point) -> int {
        p.y
    }

    fn call(&self, p: Vector<Fixed>) -> (d: Fixed) {
        p.y
    }
}

} // verus!
