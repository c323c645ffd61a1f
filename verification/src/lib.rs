//! Signed distance fields over fixed-point numbers.
//!
//! A signed distance field gives, for each point of the plane, the distance to the boundary
//! of a shape: negative inside, zero on the boundary, positive outside. Fields are built
//! from primitive shapes by boolean operators and transforms, sampled over a rectangular
//! grid and rendered as text or as an image.

use vstd::prelude::*;
use math_vector::Vector;
use crate::fixed::Fixed;

pub mod fixed;
pub mod objects;
pub mod render;
pub mod sqrt;
pub mod vector;

verus! {

/// `math_vector::Vector`, a triple of components `x`, `y`, `z` of one type. All three are
/// public fields, which the declaration leaves in sight: vectors are made and read field by
/// field.
#[verifier::external_type_specification]
#[verifier::reject_recursive_types(T)]
pub struct ExVector<T>(math_vector::Vector<T>);

/// A rectangular region of the plane and the grid of points at which it is sampled.
///
/// The corners need not be ordered: where a coordinate of `p0` is greater than that of
/// `p1`, the samples run downwards. The `z` components are not used.
pub struct Domain {
    /// The corner at which sampling starts
    pub p0: Vector<Fixed>,
    /// The corner at which sampling ends
    pub p1: Vector<Fixed>,
    /// The number of samples along each axis
    pub steps: Vector<usize>,
}

} // verus!
