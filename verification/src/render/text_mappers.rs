//! Mappings from a distance to a glyph, for the text renderer.

use vstd::prelude::*;
use crate::fixed::{Fixed, HALF_RAW};

verus! {

/// The glyph of [`default`] for the distance with raw value `v`.
pub open spec fn default_glyph(v: int) -> char {
    if v == 0 {
        '*'
    } else if -HALF_RAW < v < 0 {
        '-'
    } else if 0 < v < HALF_RAW {
        '+'
    } else {
        ' '
    }
}

/// The glyph of [`fill_inside`] for the distance with raw value `v`.
pub open spec fn fill_inside_glyph(v: int) -> char {
    if v < 0 {
        '#'
    } else {
        ' '
    }
}

/// Draws the boundary (`'*'`), and shows what is less than one half inside it (`'-'`) and
/// less than one half outside it (`'+'`).
pub fn default(x: &Fixed) -> (c: char)
    ensures
        c == default_glyph(x@),
{
    if x.is_zero() {
        '*'
    } else if Fixed::zero().gt(*x) && x.gt(Fixed::half().neg()) {
        '-'
    } else if Fixed::zero().lt(*x) && x.lt(Fixed::half()) {
        '+'
    } else {
        ' '
    }
}

/// Fills the inside with `'#'`.
pub fn fill_inside(x: &Fixed) -> (c: char)
    ensures
        c == fill_inside_glyph(x@),
{
    if x.lt(Fixed::zero()) {
        '#'
    } else {
        ' '
    }
}

} // verus!
