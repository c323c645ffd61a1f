//! Renderers: a field sampled over a domain, as a matrix of distances, as text and as an
//! image.

use vstd::prelude::*;
use image::Rgb;
use math_vector::Vector;
use crate::Domain;
use crate::fixed::Fixed;
use crate::objects::SignedDistanceField;
use crate::render::grid::{coordinate, grid_point, linspace};
use crate::render::raster::{
    Raster, fits, has_color, raster_data, raster_from_columns, raster_size,
};
use crate::vector::{Point, point};

pub mod color_mappers;
pub mod grid;
pub mod raster;
pub mod text_mappers;

verus! {

/// The distance of a field at column `i` and row `j` of the grid of a domain.
pub open spec fn sample<S: SignedDistanceField + ?Sized>(
    sdf: &S,
    domain: Domain,
    i: int,
    j: int,
) -> int {
    sdf.distance(grid_point(domain, i, j))
}

/// Where the glyph of column `i` and row `j` stands in a text of rows of `width` glyphs,
/// each row ended by a line feed.
pub open spec fn position(width: int, i: int, j: int) -> int {
    j * (width + 1) + i
}

/// Whether `s` is the text of a field over a domain under a mapping from distances to
/// glyphs: one row for each step in `y`, in each row one glyph for each step in `x`, the
/// glyph being what the mapping gives for the distance there, and a line feed after each row.
pub open spec fn is_text<S: SignedDistanceField + ?Sized, M: Fn(&Fixed) -> char>(
    s: Seq<char>,
    sdf: &S,
    domain: Domain,
    text_mapper: M,
) -> bool {
    let width = domain.steps.x as int;
    let height = domain.steps.y as int;
    &&& s.len() == height * (width + 1)
    &&& forall|i: int, j: int|
        0 <= i < width && 0 <= j < height ==> call_ensures(
            text_mapper,
            (&Fixed::with_raw(sample(sdf, domain, i, j)),),
            #[trigger] s[position(width, i, j)],
        )
    &&& forall|j: int| 0 <= j < height ==> #[trigger] s[position(width, width, j)] == '\n'
}

/// Samples a field over a domain: the matrix of its distances at the points of the grid,
/// indexed by column and then by row. Only `x` and `y` of the domain are used.
pub fn matrix<S: SignedDistanceField + ?Sized>(sdf: &S, domain: &Domain) -> (m: Vec<Vec<Fixed>>)
    ensures
        m.len() == domain.steps.x,
        forall|i: int| 0 <= i < m.len() ==> (#[trigger] m[i]).len() == domain.steps.y,
        forall|i: int, j: int|
            0 <= i < domain.steps.x && 0 <= j < domain.steps.y ==> (#[trigger] m[i][j])@ == sample(
                sdf,
                *domain,
                i,
                j,
            ),
{
    let xs = linspace(domain.p0.x, domain.p1.x, domain.steps.x);
    let ys = linspace(domain.p0.y, domain.p1.y, domain.steps.y);
    let mut m: Vec<Vec<Fixed>> = Vec::new();
    let mut i: usize = 0;
    while i < xs.len()
        invariant
            i <= xs.len(),
            xs.len() == domain.steps.x,
            ys.len() == domain.steps.y,
            m.len() == i,
            forall|k: int|
                0 <= k < xs.len() ==> (#[trigger] xs[k])@ == coordinate(
                    domain.p0.x@,
                    domain.p1.x@,
                    domain.steps.x as int,
                    k,
                ),
            forall|k: int|
                0 <= k < ys.len() ==> (#[trigger] ys[k])@ == coordinate(
                    domain.p0.y@,
                    domain.p1.y@,
                    domain.steps.y as int,
                    k,
                ),
            forall|k: int| 0 <= k < i ==> (#[trigger] m[k]).len() == domain.steps.y,
            forall|k: int, j: int|
                0 <= k < i && 0 <= j < domain.steps.y ==> (#[trigger] m[k][j])@ == sample(
                    sdf,
                    *domain,
                    k,
                    j,
                ),
        decreases xs.len() - i,
    {
        let x = xs[i];
        let mut column: Vec<Fixed> = Vec::new();
        let mut j: usize = 0;
        while j < ys.len()
            invariant
                j <= ys.len(),
                i < xs.len(),
                ys.len() == domain.steps.y,
                column.len() == j,
                x@ == coordinate(domain.p0.x@, domain.p1.x@, domain.steps.x as int, i as int),
                forall|k: int|
                    0 <= k < ys.len() ==> (#[trigger] ys[k])@ == coordinate(
                        domain.p0.y@,
                        domain.p1.y@,
                        domain.steps.y as int,
                        k,
                    ),
                forall|k: int|
                    0 <= k < j ==> (#[trigger] column[k])@ == sample(sdf, *domain, i as int, k),
            decreases ys.len() - j,
        {
            let p = Vector { x, y: ys[j], z: Fixed::zero() };
            let value = sdf.call(p);
            assert(point(p) == grid_point(*domain, i as int, j as int));
            column.push(value);
            j += 1;
        }
        m.push(column);
        i += 1;
    }
    m
}

/// Renders a field into text: one glyph for each point of the grid of the domain, row by
/// row, each row ended by a line feed.
pub fn text<S: SignedDistanceField + ?Sized, M: Fn(&Fixed) -> char>(
    sdf: &S,
    domain: &Domain,
    text_mapper: &M,
) -> (s: String)
    requires
        forall|v: Fixed| v.bounded() ==> call_requires(*text_mapper, (&v,)),
    ensures
        is_text(s@, sdf, *domain, *text_mapper),
{
    let m = matrix(sdf, domain);
    let width = domain.steps.x;
    let height = domain.steps.y;
    let mut s = String::new();
    let mut j: usize = 0;
    while j < height
        invariant
            j <= height,
            width == domain.steps.x,
            height == domain.steps.y,
            m.len() == width,
            forall|i: int| 0 <= i < m.len() ==> (#[trigger] m[i]).len() == height,
            forall|i: int, k: int|
                0 <= i < width && 0 <= k < height ==> (#[trigger] m[i][k])@ == sample(
                    sdf,
                    *domain,
                    i,
                    k,
                ),
            forall|v: Fixed| v.bounded() ==> call_requires(*text_mapper, (&v,)),
            s@.len() == j * (width + 1),
            forall|i: int, k: int|
                0 <= i < width && 0 <= k < j ==> call_ensures(
                    *text_mapper,
                    (&Fixed::with_raw(sample(sdf, *domain, i, k)),),
                    #[trigger] s@[position(width as int, i, k)],
                ),
            forall|k: int|
                0 <= k < j ==> #[trigger] s@[position(width as int, width as int, k)] == '\n',
        decreases height - j,
    {
        let mut i: usize = 0;
        while i < width
            invariant
                i <= width,
                j < height,
                width == domain.steps.x,
                height == domain.steps.y,
                m.len() == width,
                forall|c: int| 0 <= c < m.len() ==> (#[trigger] m[c]).len() == height,
                forall|c: int, k: int|
                    0 <= c < width && 0 <= k < height ==> (#[trigger] m[c][k])@ == sample(
                        sdf,
                        *domain,
                        c,
                        k,
                    ),
                forall|v: Fixed| v.bounded() ==> call_requires(*text_mapper, (&v,)),
                s@.len() == j * (width + 1) + i,
                forall|c: int, k: int|
                    0 <= c < width && 0 <= k < j ==> call_ensures(
                        *text_mapper,
                        (&Fixed::with_raw(sample(sdf, *domain, c, k)),),
                        #[trigger] s@[position(width as int, c, k)],
                    ),
                forall|c: int|
                    0 <= c < i ==> call_ensures(
                        *text_mapper,
                        (&Fixed::with_raw(sample(sdf, *domain, c, j as int)),),
                        #[trigger] s@[position(width as int, c, j as int)],
                    ),
                forall|k: int|
                    0 <= k < j ==> #[trigger] s@[position(width as int, width as int, k)] == '\n',
            decreases width - i,
        {
            let value = m[i][j];
            proof {
                value.lemma_with_raw_of_view();
                use_type_invariant(&value);
            }
            let glyph = text_mapper(&value);
            let ghost before = s@;
            s.push(glyph);
            proof {
                lemma_positions(width as int, j as int);
                assert forall|c: int, k: int| 0 <= c < width && 0 <= k < j implies call_ensures(
                    *text_mapper,
                    (&Fixed::with_raw(sample(sdf, *domain, c, k)),),
                    #[trigger] s@[position(width as int, c, k)],
                ) by {
                    lemma_positions(width as int, k);
                    assert(s@[position(width as int, c, k)] == before[position(width as int, c, k)]);
                }
                assert forall|k: int| 0 <= k < j implies #[trigger] s@[position(
                    width as int,
                    width as int,
                    k,
                )] == '\n' by {
                    lemma_positions(width as int, k);
                    assert(s@[position(width as int, width as int, k)] == before[position(
                        width as int,
                        width as int,
                        k,
                    )]);
                }
                assert forall|c: int| 0 <= c < i + 1 implies call_ensures(
                    *text_mapper,
                    (&Fixed::with_raw(sample(sdf, *domain, c, j as int)),),
                    #[trigger] s@[position(width as int, c, j as int)],
                ) by {
                    if c < i {
                        assert(s@[position(width as int, c, j as int)] == before[position(
                            width as int,
                            c,
                            j as int,
                        )]);
                    }
                }
            }
            i += 1;
        }
        let ghost before = s@;
        s.push('\n');
        proof {
            lemma_positions(width as int, j as int);
            lemma_positions(width as int, j as int + 1);
            assert forall|c: int, k: int| 0 <= c < width && 0 <= k < j + 1 implies call_ensures(
                *text_mapper,
                (&Fixed::with_raw(sample(sdf, *domain, c, k)),),
                #[trigger] s@[position(width as int, c, k)],
            ) by {
                lemma_positions(width as int, k);
                assert(s@[position(width as int, c, k)] == before[position(width as int, c, k)]);
            }
            assert forall|k: int| 0 <= k < j + 1 implies #[trigger] s@[position(
                width as int,
                width as int,
                k,
            )] == '\n' by {
                lemma_positions(width as int, k);
                if k < j {
                    assert(s@[position(width as int, width as int, k)] == before[position(
                        width as int,
                        width as int,
                        k,
                    )]);
                }
            }
        }
        j += 1;
    }
    s
}

/// Width of the image of a domain: its number of steps in `x`, counted in 32 bits.
pub open spec fn image_width(domain: Domain) -> int {
    (domain.steps.x as int) % 0x1_0000_0000
}

/// Height of the image of a domain: its number of steps in `y`, counted in 32 bits.
pub open spec fn image_height(domain: Domain) -> int {
    (domain.steps.y as int) % 0x1_0000_0000
}

/// Whether the colour of the pixel at column `x` and row `y` of an image is what a mapping
/// gives for the distance `v`.
pub open spec fn is_mapped<M: Fn(&Fixed) -> Rgb<u8>>(
    raster: Raster,
    x: int,
    y: int,
    v: Fixed,
    color_mapper: M,
) -> bool {
    exists|c: Rgb<u8>| #[trigger] call_ensures(color_mapper, (&v,), c) && has_color(raster, x, y, c)
}

/// Whether `raster` is the image of a field over a domain under a mapping from distances
/// to colours: one pixel for each point of the grid, column `x` and row `y` of the grid at
/// column `x` and row `y` of the image, the colour being what the mapping gives for the
/// distance there.
pub open spec fn is_image<S: SignedDistanceField + ?Sized, M: Fn(&Fixed) -> Rgb<u8>>(
    raster: Raster,
    sdf: &S,
    domain: Domain,
    color_mapper: M,
) -> bool {
    let width = image_width(domain);
    let height = image_height(domain);
    &&& raster_size(raster) == (width, height)
    &&& raster_data(raster).len() == width * height * 3
    &&& forall|x: int, y: int|
        0 <= x < width && 0 <= y < height ==> #[trigger] is_mapped(
            raster,
            x,
            y,
            Fixed::with_raw(sample(sdf, domain, x, y)),
            color_mapper,
        )
}

/// Whether an image of the domain can be made.
pub fn image_fits(domain: &Domain) -> (b: bool)
    ensures
        b == fits(image_width(*domain), image_height(*domain)),
{
    let width: u128 = ((domain.steps.x as u64) % 0x1_0000_0000) as u128;
    let height: u128 = ((domain.steps.y as u64) % 0x1_0000_0000) as u128;
    let limit: u128 = usize::MAX as u128;
    assert(3 * width * height <= 3 * 0xffff_ffff * 0xffff_ffff) by (nonlinear_arith)
        requires
            0 <= width <= 0xffff_ffff,
            0 <= height <= 0xffff_ffff,
    ;
    3 * width <= limit && 3 * width * height <= limit
}

/// Renders a field into an image: one pixel for each point of the grid of the domain. The
/// image has to fit in memory, which [`image_fits`] tells.
pub fn image<S: SignedDistanceField + ?Sized, M: Fn(&Fixed) -> Rgb<u8>>(
    sdf: &S,
    domain: &Domain,
    color_mapper: &M,
) -> (raster: Raster)
    requires
        forall|v: Fixed| v.bounded() ==> call_requires(*color_mapper, (&v,)),
        fits(image_width(*domain), image_height(*domain)),
    ensures
        is_image(raster, sdf, *domain, *color_mapper),
{
    let m = matrix(sdf, domain);
    let width: u32 = ((domain.steps.x as u64) % 0x1_0000_0000) as u32;
    let height: u32 = ((domain.steps.y as u64) % 0x1_0000_0000) as u32;
    let mut columns: Vec<Vec<Rgb<u8>>> = Vec::new();
    let mut x: u32 = 0;
    while x < width
        invariant
            x <= width,
            width == image_width(*domain),
            height == image_height(*domain),
            width <= domain.steps.x,
            height <= domain.steps.y,
            m.len() == domain.steps.x,
            forall|i: int| 0 <= i < m.len() ==> (#[trigger] m[i]).len() == domain.steps.y,
            forall|i: int, j: int|
                0 <= i < domain.steps.x && 0 <= j < domain.steps.y ==> (#[trigger] m[i][j])@
                    == sample(sdf, *domain, i, j),
            forall|v: Fixed| v.bounded() ==> call_requires(*color_mapper, (&v,)),
            columns.len() == x,
            forall|i: int| 0 <= i < x ==> (#[trigger] columns[i]).len() == height,
            forall|i: int, j: int|
                0 <= i < x && 0 <= j < height ==> call_ensures(
                    *color_mapper,
                    (&Fixed::with_raw(sample(sdf, *domain, i, j)),),
                    #[trigger] columns[i][j],
                ),
        decreases width - x,
    {
        let mut column: Vec<Rgb<u8>> = Vec::new();
        let mut y: u32 = 0;
        while y < height
            invariant
                y <= height,
                x < width,
                width <= domain.steps.x,
                height <= domain.steps.y,
                m.len() == domain.steps.x,
                forall|i: int| 0 <= i < m.len() ==> (#[trigger] m[i]).len() == domain.steps.y,
                forall|i: int, j: int|
                    0 <= i < domain.steps.x && 0 <= j < domain.steps.y ==> (#[trigger] m[i][j])@
                        == sample(sdf, *domain, i, j),
                forall|v: Fixed| v.bounded() ==> call_requires(*color_mapper, (&v,)),
                column.len() == y,
                forall|j: int|
                    0 <= j < y ==> call_ensures(
                        *color_mapper,
                        (&Fixed::with_raw(sample(sdf, *domain, x as int, j)),),
                        #[trigger] column[j],
                    ),
            decreases height - y,
        {
            let value = m[x as usize][y as usize];
            proof {
                value.lemma_with_raw_of_view();
                use_type_invariant(&value);
            }
            column.push(color_mapper(&value));
            y += 1;
        }
        columns.push(column);
        x += 1;
    }
    let raster = raster_from_columns(width, height, &columns);
    proof {
        assert forall|i: int, j: int| 0 <= i < width && 0 <= j < height implies #[trigger] is_mapped(
            raster,
            i,
            j,
            Fixed::with_raw(sample(sdf, *domain, i, j)),
            *color_mapper,
        ) by {
            let c = columns[i][j];
            assert(has_color(raster, i, j, c));
            assert(call_ensures(
                *color_mapper,
                (&Fixed::with_raw(sample(sdf, *domain, i, j)),),
                c,
            ));
        }
    }
    raster
}

/// The rows of a text follow one another: row `j` starts where `j` rows of `width + 1`
/// glyphs end, and rows before it end before it starts.
proof fn lemma_positions(width: int, j: int)
    requires
        0 <= width,
        0 <= j,
    ensures
        position(width, 0, j) == j * (width + 1),
        position(width, 0, j + 1) == j * (width + 1) + width + 1,
        forall|i: int, k: int|
            0 <= i <= width && 0 <= k < j ==> 0 <= #[trigger] position(width, i, k) < j * (width
                + 1),
{
    assert((j + 1) * (width + 1) == j * (width + 1) + width + 1) by (nonlinear_arith);
    assert forall|i: int, k: int| 0 <= i <= width && 0 <= k < j implies 0 <= #[trigger] position(
        width,
        i,
        k,
    ) < j * (width + 1) by {
        assert(0 <= k * (width + 1) && (k + 1) * (width + 1) <= j * (width + 1))
            by (nonlinear_arith)
            requires
                0 <= k < j,
                0 <= width,
        ;
        assert((k + 1) * (width + 1) == k * (width + 1) + width + 1) by (nonlinear_arith);
    }
}

/// std's `String::push`, which appends the given character to the end of the string.
pub assume_specification[ String::push ](s: &mut String, ch: char)
    ensures
        final(s)@ == old(s)@.push(ch),
;

} // verus!
