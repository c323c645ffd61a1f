//! Signed distance fields: the evaluation contract, and a field made from a function.

use vstd::prelude::*;
use math_vector::Vector;
use crate::fixed::Fixed;
use crate::vector::{Point, is_point, point};

pub mod operators;
pub mod primitives;

verus! {

/// A signed distance field: a shape, given by the distance from any point to its boundary.
///
/// The distance is negative inside the shape, zero on its boundary and positive outside.
/// A field is a pure function of the point and of its own parameters.
pub trait SignedDistanceField {
    /// The signed distance at `p`, as a raw value.
    spec fn distance(&self, p: Point) -> int;

    /// Evaluates the field at `p`.
    fn call(&self, p: Vector<Fixed>) -> (d: Fixed)
        ensures
            d@ == self.distance(point(p)),
    ;
}

/// Whether `f` can stand for a field: it accepts every point, and its result is determined
/// by the point.
pub open spec fn is_field_function<G: Fn(Vector<Fixed>) -> Fixed>(f: G) -> bool {
    &&& forall|p: Vector<Fixed>| is_point(point(p)) ==> call_requires(f, (p,))
    &&& forall|p: Vector<Fixed>, q: Vector<Fixed>, d: Fixed, e: Fixed|
        point(p) == point(q) && #[trigger] call_ensures(f, (p,), d) && #[trigger] call_ensures(
            f,
            (q,),
            e,
        ) ==> d@ == e@
}

/// Whether `d` is the raw value that `f` returns at the point `p`.
pub open spec fn yields<G: Fn(Vector<Fixed>) -> Fixed>(f: G, p: Point, d: int) -> bool {
    exists|v: Vector<Fixed>, r: Fixed| point(v) == p && r@ == d && #[trigger] call_ensures(f, (v,), r)
}

/// A general purpose field with just a distance function.
pub struct F<G: Fn(Vector<Fixed>) -> Fixed> {
    f: G,
}

impl<G: Fn(Vector<Fixed>) -> Fixed> F<G> {
    #[verifier::type_invariant]
    closed spec fn well_formed(self) -> bool {
        is_field_function(self.f)
    }

    /// The distance function.
    pub closed spec fn function(self) -> G {
        self.f
    }

    /// The field whose distance function is `f`.
    pub fn new(f: G) -> (r: Self)
        requires
            is_field_function(f),
        ensures
            r.function() == f,
    {
        F { f }
    }
}

impl<G: Fn(Vector<Fixed>) -> Fixed> SignedDistanceField for F<G> {
    /// The value that the distance function returns at `p`.
    open spec fn distance(&self, p: Point) -> int {
        choose|d: int| yields(self.function(), p, d)
    }

    fn call(&self, p: Vector<Fixed>) -> (d: Fixed)
        ensures
            yields(self.function(), point(p), d@),
    {
        proof {
            use_type_invariant(self);
            use_type_invariant(&p.x);
            use_type_invariant(&p.y);
            use_type_invariant(&p.z);
        }
        let d = (self.f)(p);
        proof {
            assert(yields(self.f, point(p), d@));
            let chosen = self.distance(point(p));
            assert(yields(self.f, point(p), chosen));
        }
        d
    }
}

} // verus!
