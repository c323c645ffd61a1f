//! Mappings from a distance to a colour, for the image renderer.

use vstd::prelude::*;
use image::Rgb;
use crate::fixed::{Fixed, HALF_RAW, ONE_RAW};

verus! {

/// `image::Rgb`, a pixel of three channels: red, green and blue, in an array that is its one
/// public field, which the declaration leaves in sight.
#[verifier::external_type_specification]
#[verifier::reject_recursive_types(T)]
pub struct ExRgb<T>(Rgb<T>);

/// The three channels of a colour.
pub open spec fn channels(c: Rgb<u8>) -> (int, int, int) {
    (c.0[0] as int, c.0[1] as int, c.0[2] as int)
}

/// The level of every channel of [`inside_black_outside_white`] for the distance with raw
/// value `v`.
pub open spec fn mask_level(v: int) -> int {
    if v < 0 {
        255
    } else {
        0
    }
}

/// The grey level of [`default`] for the distance with raw value `v`: the whole part of
/// `(v + 1/2) * 256`, kept within `0 ..= 255`.
pub open spec fn gray_level(v: int) -> int {
    let level = ((v + HALF_RAW) * 256) / (ONE_RAW as int);
    if level < 0 {
        0
    } else if level > 255 {
        255
    } else {
        level
    }
}

/// Turns the distance into a linear grey scale, on which a distance of zero becomes 128.
pub fn default(x: &Fixed) -> (c: Rgb<u8>)
    ensures
        channels(c) == (gray_level(x@), gray_level(x@), gray_level(x@)),
{
    let shifted: i128 = x.raw() as i128 + HALF_RAW as i128;
    let value: u8 = if shifted < 0 {
        0
    } else if shifted >= 0x1_0000_0000 {
        255
    } else {
        (shifted / 0x100_0000) as u8
    };
    proof {
        let level = (shifted * 256) / (ONE_RAW as int);
        assert(shifted < 0 ==> level < 0) by (nonlinear_arith)
            requires
                level == (shifted * 256) / 0x1_0000_0000,
        ;
        assert(shifted >= 0x1_0000_0000 ==> level >= 256) by (nonlinear_arith)
            requires
                level == (shifted * 256) / 0x1_0000_0000,
        ;
        assert(0 <= shifted < 0x1_0000_0000 ==> level == shifted / 0x100_0000 && 0 <= level < 256)
            by (nonlinear_arith)
            requires
                level == (shifted * 256) / 0x1_0000_0000,
        ;
    }
    Rgb([value, value, value])
}

/// A hard mask of the shape: white where the distance is negative, black elsewhere.
pub fn inside_black_outside_white(x: &Fixed) -> (c: Rgb<u8>)
    ensures
        channels(c) == (mask_level(x@), mask_level(x@), mask_level(x@)),
{
    if x.lt(Fixed::zero()) {
        Rgb([255, 255, 255])
    } else {
        Rgb([0, 0, 0])
    }
}

} // verus!
