//! Points and vectors: triples of fixed-point numbers, held in `math_vector::Vector`.
//!
//! The mathematical model of a vector is a [`Point`], the triple of the raw values of its
//! components.

use vstd::prelude::*;
use math_vector::Vector;
use crate::fixed::{Fixed, MAX_RAW, ONE_RAW, clamp, in_range, magnitude, minus, plus, times};
use crate::sqrt::{floor_sqrt, isqrt};

verus! {

/// A point of space, or a vector, by the raw values of its three components.
pub struct Point {
    pub x: int,
    pub y: int,
    pub z: int,
}

/// The point that a vector of numbers stands for.
pub open spec fn point(v: Vector<Fixed>) -> Point {
    Point { x: v.x@, y: v.y@, z: v.z@ }
}

/// The vector opposite to `v`.
pub open spec fn opposite(v: Vector<Fixed>) -> Vector<Fixed> {
    Vector { x: Fixed::with_raw(-v.x@), y: Fixed::with_raw(-v.y@), z: Fixed::with_raw(-v.z@) }
}

/// Whether every component of a point is representable: whether it stands for a vector.
pub open spec fn is_point(p: Point) -> bool {
    in_range(p.x) && in_range(p.y) && in_range(p.z)
}

/// Euclidean length of a vector, rounded down to a multiple of 2^-32.
pub open spec fn norm(p: Point) -> int {
    floor_sqrt(p.x * p.x + p.y * p.y + p.z * p.z)
}

/// Component-wise clamped difference `a - b`.
pub open spec fn difference(a: Point, b: Point) -> Point {
    Point { x: minus(a.x, b.x), y: minus(a.y, b.y), z: minus(a.z, b.z) }
}

/// Component-wise clamped sum `a + b`.
pub open spec fn sum(a: Point, b: Point) -> Point {
    Point { x: plus(a.x, b.x), y: plus(a.y, b.y), z: plus(a.z, b.z) }
}

/// Every component of `a` multiplied by the number with raw value `s`.
pub open spec fn scaled(a: Point, s: int) -> Point {
    Point { x: times(a.x, s), y: times(a.y, s), z: times(a.z, s) }
}

/// Cross product `a x b`.
pub open spec fn cross(a: Point, b: Point) -> Point {
    Point {
        x: minus(times(a.y, b.z), times(a.z, b.y)),
        y: minus(times(a.z, b.x), times(a.x, b.z)),
        z: minus(times(a.x, b.y), times(a.y, b.x)),
    }
}

/// Dot product of `a` and `b`.
pub open spec fn dot(a: Point, b: Point) -> int {
    plus(plus(times(a.x, b.x), times(a.y, b.y)), times(a.z, b.z))
}

/// The point `p` turned about `axis` by the angle whose cosine and sine have the raw
/// values `cos` and `sin`, by Rodrigues' formula
/// `p cos + (axis x p) sin + axis (axis . p) (1 - cos)`.
pub open spec fn rotated(p: Point, cos: int, sin: int, axis: Point) -> Point {
    sum(
        sum(scaled(p, cos), scaled(cross(axis, p), sin)),
        scaled(scaled(axis, dot(axis, p)), minus(ONE_RAW as int, cos)),
    )
}

/// Calls `math_vector`'s `Sub` for `Vector<T>`, which subtracts component by component with
/// the component type's own `-`; for [`Fixed`] that is the clamped difference.
#[verifier::external_body]
pub(crate) fn vector_difference(a: Vector<Fixed>, b: Vector<Fixed>) -> (r: Vector<Fixed>)
    ensures
        point(r) == difference(point(a), point(b)),
{
    a - b
}

/// Component-wise clamped sum.
pub fn vector_sum(a: Vector<Fixed>, b: Vector<Fixed>) -> (r: Vector<Fixed>)
    ensures
        point(r) == sum(point(a), point(b)),
{
    Vector {
        x: a.x.saturating_add(b.x),
        y: a.y.saturating_add(b.y),
        z: a.z.saturating_add(b.z),
    }
}

/// Every component multiplied by `s`.
pub fn vector_scaled(a: Vector<Fixed>, s: Fixed) -> (r: Vector<Fixed>)
    ensures
        point(r) == scaled(point(a), s@),
{
    Vector { x: a.x.saturating_mul(s), y: a.y.saturating_mul(s), z: a.z.saturating_mul(s) }
}

/// Cross product.
pub fn vector_cross(a: Vector<Fixed>, b: Vector<Fixed>) -> (r: Vector<Fixed>)
    ensures
        point(r) == cross(point(a), point(b)),
{
    Vector {
        x: a.y.saturating_mul(b.z).saturating_sub(a.z.saturating_mul(b.y)),
        y: a.z.saturating_mul(b.x).saturating_sub(a.x.saturating_mul(b.z)),
        z: a.x.saturating_mul(b.y).saturating_sub(a.y.saturating_mul(b.x)),
    }
}

/// Dot product.
pub fn vector_dot(a: Vector<Fixed>, b: Vector<Fixed>) -> (r: Fixed)
    ensures
        r@ == dot(point(a), point(b)),
{
    a.x.saturating_mul(b.x).saturating_add(a.y.saturating_mul(b.y)).saturating_add(
        a.z.saturating_mul(b.z),
    )
}

/// Turns `p` about `axis` by the angle with cosine `cos` and sine `sin`.
pub fn rotate(p: Vector<Fixed>, cos: Fixed, sin: Fixed, axis: Vector<Fixed>) -> (r: Vector<Fixed>)
    ensures
        point(r) == rotated(point(p), cos@, sin@, point(axis)),
{
    let along = vector_scaled(p, cos);
    let across = vector_scaled(vector_cross(axis, p), sin);
    let lift = vector_scaled(
        vector_scaled(axis, vector_dot(axis, p)),
        Fixed::one().saturating_sub(cos),
    );
    vector_sum(vector_sum(along, across), lift)
}

/// Euclidean length, rounded down and clamped to the range.
pub fn length(v: Vector<Fixed>) -> (r: Fixed)
    ensures
        r@ == clamp(norm(point(v))),
{
    let x: u128 = v.x.abs().raw() as u128;
    let y: u128 = v.y.abs().raw() as u128;
    let z: u128 = v.z.abs().raw() as u128;
    proof {
        lemma_square_bound(x as int);
        lemma_square_bound(y as int);
        lemma_square_bound(z as int);
        lemma_square_of_magnitude(v.x@);
        lemma_square_of_magnitude(v.y@);
        lemma_square_of_magnitude(v.z@);
    }
    let squares: u128 = x * x + y * y + z * z;
    let root: u64 = isqrt(squares);
    if root > MAX_RAW as u64 {
        Fixed::from_raw(MAX_RAW)
    } else {
        Fixed::from_raw(root as i64)
    }
}

proof fn lemma_square_bound(a: int)
    requires
        0 <= a <= MAX_RAW,
    ensures
        0 <= a * a <= 0x3fff_ffff_ffff_ffff_0000_0000_0000_0001,
{
    assert(0 <= a * a <= 0x7fff_ffff_ffff_ffff * 0x7fff_ffff_ffff_ffff) by (nonlinear_arith)
        requires
            0 <= a <= 0x7fff_ffff_ffff_ffff,
    ;
}

proof fn lemma_square_of_magnitude(a: int)
    ensures
        magnitude(a) * magnitude(a) == a * a,
{
    assert((-a) * (-a) == a * a) by (nonlinear_arith);
}

} // verus!
