use image::Rgb;
use math_vector::Vector;
use signed_distance_fields::fixed::{Fixed, MAX_RAW};
use signed_distance_fields::objects::primitives::{Circle, Plane};
use signed_distance_fields::objects::F;
use signed_distance_fields::render::grid::linspace;
use signed_distance_fields::render::{
    color_mappers, image, image_fits, matrix, text, text_mappers,
};
use signed_distance_fields::Domain;

fn fx(v: f64) -> Fixed {
    Fixed::from_raw((v * 4294967296.0).round() as i64)
}

fn domain(x0: f64, y0: f64, x1: f64, y1: f64, nx: usize, ny: usize) -> Domain {
    Domain {
        p0: Vector { x: fx(x0), y: fx(y0), z: Fixed::zero() },
        p1: Vector { x: fx(x1), y: fx(y1), z: Fixed::zero() },
        steps: Vector { x: nx, y: ny, z: 0 },
    }
}

#[test]
fn linspace_includes_both_ends() {
    assert_eq!(
        linspace(fx(0.0), fx(1.0), 5),
        vec![fx(0.0), fx(0.25), fx(0.5), fx(0.75), fx(1.0)]
    );
    assert_eq!(linspace(fx(-10.0), fx(10.0), 3), vec![fx(-10.0), fx(0.0), fx(10.0)]);
    assert_eq!(linspace(fx(2.0), fx(3.0), 2), vec![fx(2.0), fx(3.0)]);
}

#[test]
fn linspace_of_one_is_the_start_and_of_none_is_empty() {
    assert_eq!(linspace(fx(2.0), fx(3.0), 1), vec![fx(2.0)]);
    assert_eq!(linspace(fx(2.0), fx(3.0), 0), Vec::<Fixed>::new());
}

#[test]
fn linspace_descends_where_the_end_is_less() {
    assert_eq!(
        linspace(fx(1.0), fx(-1.0), 5),
        vec![fx(1.0), fx(0.5), fx(0.0), fx(-0.5), fx(-1.0)]
    );
}

#[test]
fn linspace_rounds_towards_the_start() {
    let up = linspace(Fixed::from_raw(0), Fixed::from_raw(10), 4);
    assert_eq!(up.iter().map(|v| v.raw()).collect::<Vec<i64>>(), vec![0, 3, 6, 10]);
    let down = linspace(Fixed::from_raw(0), Fixed::from_raw(-10), 4);
    assert_eq!(down.iter().map(|v| v.raw()).collect::<Vec<i64>>(), vec![0, -3, -6, -10]);
    let same = linspace(fx(4.0), fx(4.0), 3);
    assert_eq!(same, vec![fx(4.0), fx(4.0), fx(4.0)]);
}

#[test]
fn linspace_spans_the_whole_range() {
    let v = linspace(Fixed::from_raw(-MAX_RAW), Fixed::from_raw(MAX_RAW), 3);
    assert_eq!(v.iter().map(|v| v.raw()).collect::<Vec<i64>>(), vec![-MAX_RAW, 0, MAX_RAW]);
    let w = linspace(Fixed::from_raw(MAX_RAW), Fixed::from_raw(-MAX_RAW), 5);
    assert_eq!(w[0].raw(), MAX_RAW);
    assert_eq!(w[2].raw(), 0);
    assert_eq!(w[4].raw(), -MAX_RAW);
    assert_eq!(w[1].raw(), MAX_RAW - (((MAX_RAW as i128) * 2 / 4) as i64));
}

#[test]
fn matrix_has_the_shape_of_the_steps() {
    let circle = Circle { r: fx(5.0) };
    let m = matrix(&circle, &domain(-10.0, -10.0, 10.0, 10.0, 100, 50));
    assert_eq!(m.len(), 100);
    for column in m.iter() {
        assert_eq!(column.len(), 50);
    }
}

#[test]
fn matrix_is_indexed_by_column_then_row() {
    let plane = Plane {};
    let m = matrix(&plane, &domain(0.0, 10.0, 3.0, 30.0, 4, 3));
    assert_eq!(m.len(), 4);
    for column in m.iter() {
        assert_eq!(column, &vec![fx(10.0), fx(20.0), fx(30.0)]);
    }
    let across = F::new(|p: Vector<Fixed>| p.x);
    let m = matrix(&across, &domain(0.0, 10.0, 3.0, 30.0, 4, 3));
    for i in 0..4 {
        assert_eq!(m[i], vec![fx(i as f64), fx(i as f64), fx(i as f64)]);
    }
}

#[test]
fn matrix_samples_in_the_plane() {
    let height = F::new(|p: Vector<Fixed>| p.z);
    let d = Domain {
        p0: Vector { x: fx(0.0), y: fx(0.0), z: fx(7.0) },
        p1: Vector { x: fx(1.0), y: fx(1.0), z: fx(9.0) },
        steps: Vector { x: 2, y: 2, z: 5 },
    };
    assert_eq!(matrix(&height, &d), vec![vec![fx(0.0), fx(0.0)], vec![fx(0.0), fx(0.0)]]);
}

#[test]
fn matrix_of_a_circle() {
    let circle = Circle { r: fx(5.0) };
    let m = matrix(&circle, &domain(-3.0, -4.0, 3.0, 4.0, 3, 3));
    assert_eq!(
        m,
        vec![
            vec![fx(0.0), fx(-2.0), fx(0.0)],
            vec![fx(-1.0), fx(-5.0), fx(-1.0)],
            vec![fx(0.0), fx(-2.0), fx(0.0)],
        ]
    );
}

#[test]
fn matrix_of_an_empty_domain_is_empty() {
    let circle = Circle { r: fx(5.0) };
    let none = matrix(&circle, &domain(-10.0, -10.0, 10.0, 10.0, 0, 5));
    assert_eq!(none.len(), 0);
    let no_rows = matrix(&circle, &domain(-10.0, -10.0, 10.0, 10.0, 4, 0));
    assert_eq!(no_rows.len(), 4);
    for column in no_rows.iter() {
        assert_eq!(column.len(), 0);
    }
    assert_eq!(matrix(&circle, &domain(-10.0, -10.0, 10.0, 10.0, 0, 0)).len(), 0);
}

#[test]
fn matrix_of_a_reversed_domain_runs_downwards() {
    let across = F::new(|p: Vector<Fixed>| p.x);
    let m = matrix(&across, &domain(3.0, 0.0, 0.0, 1.0, 4, 1));
    assert_eq!(m, vec![vec![fx(3.0)], vec![fx(2.0)], vec![fx(1.0)], vec![fx(0.0)]]);
    let plane = Plane {};
    let m = matrix(&plane, &domain(0.0, 2.0, 1.0, -2.0, 1, 5));
    assert_eq!(m, vec![vec![fx(2.0), fx(1.0), fx(0.0), fx(-1.0), fx(-2.0)]]);
}

#[test]
fn default_text_mapper_marks_the_boundary() {
    assert_eq!(text_mappers::default(&fx(0.0)), '*');
    assert_eq!(text_mappers::default(&fx(-0.25)), '-');
    assert_eq!(text_mappers::default(&fx(0.25)), '+');
    assert_eq!(text_mappers::default(&Fixed::from_raw(-1)), '-');
    assert_eq!(text_mappers::default(&Fixed::from_raw(1)), '+');
    assert_eq!(text_mappers::default(&fx(-0.5)), ' ');
    assert_eq!(text_mappers::default(&fx(0.5)), ' ');
    assert_eq!(text_mappers::default(&fx(-3.0)), ' ');
    assert_eq!(text_mappers::default(&fx(3.0)), ' ');
    assert_eq!(text_mappers::default(&Fixed::from_raw((1i64 << 31) - 1)), '+');
    assert_eq!(text_mappers::default(&Fixed::from_raw(1 - (1i64 << 31))), '-');
}

#[test]
fn fill_inside_marks_what_is_negative() {
    assert_eq!(text_mappers::fill_inside(&fx(-3.0)), '#');
    assert_eq!(text_mappers::fill_inside(&Fixed::from_raw(-1)), '#');
    assert_eq!(text_mappers::fill_inside(&fx(0.0)), ' ');
    assert_eq!(text_mappers::fill_inside(&fx(3.0)), ' ');
}

#[test]
fn text_is_written_row_by_row() {
    let plane = Plane {};
    // three columns, five rows at heights -1, -0.5, 0, 0.5, 1
    let d = domain(0.0, -1.0, 1.0, 1.0, 3, 5);
    assert_eq!(text(&plane, &d, &text_mappers::fill_inside), "###\n###\n   \n   \n   \n");
    let d = domain(0.0, -0.5, 1.0, 0.5, 3, 5);
    assert_eq!(text(&plane, &d, &text_mappers::default), "   \n---\n***\n+++\n   \n");
}

#[test]
fn text_puts_columns_side_by_side() {
    let across = F::new(|p: Vector<Fixed>| p.x);
    let d = domain(-1.0, 0.0, 1.0, 1.0, 5, 2);
    assert_eq!(text(&across, &d, &text_mappers::fill_inside), "##   \n##   \n");
    assert_eq!(text(&across, &d, &text_mappers::default), "  *  \n  *  \n");
    let d = domain(-0.5, 0.0, 0.5, 1.0, 5, 2);
    assert_eq!(text(&across, &d, &text_mappers::default), " -*+ \n -*+ \n");
}

#[test]
fn text_takes_any_mapping() {
    let across = F::new(|p: Vector<Fixed>| p.x);
    let d = domain(0.0, 0.0, 3.0, 1.0, 4, 2);
    let digits = |v: &Fixed| char::from_digit((v.raw() >> 32) as u32, 10).unwrap();
    assert_eq!(text(&across, &d, &digits), "0123\n0123\n");
}

#[test]
fn text_of_an_empty_domain() {
    let circle = Circle { r: fx(5.0) };
    assert_eq!(text(&circle, &domain(-1.0, -1.0, 1.0, 1.0, 3, 0), &text_mappers::fill_inside), "");
    assert_eq!(
        text(&circle, &domain(-1.0, -1.0, 1.0, 1.0, 0, 3), &text_mappers::fill_inside),
        "\n\n\n"
    );
    assert_eq!(text(&circle, &domain(-1.0, -1.0, 1.0, 1.0, 0, 0), &text_mappers::fill_inside), "");
}

#[test]
fn text_of_a_small_circle() {
    let circle = Circle { r: fx(2.0) };
    let d = domain(-3.0, -3.0, 3.0, 3.0, 7, 7);
    // inside are the points nearer than 2 to the middle: it and its eight neighbours
    let expected = "       \n       \n  ###  \n  ###  \n  ###  \n       \n       \n";
    assert_eq!(text(&circle, &d, &text_mappers::fill_inside), expected);
    // at distance 2 are four points; less than one half outside are the eight at sqrt(5)
    let expected = "       \n  +*+  \n +   + \n *   * \n +   + \n  +*+  \n       \n";
    assert_eq!(text(&circle, &d, &text_mappers::default), expected);
}

#[test]
fn circle_renders_as_a_centred_disc() {
    let circle = Circle { r: fx(5.0) };
    let d = domain(-10.0, -10.0, 10.0, 10.0, 100, 50);
    let rendered = text(&circle, &d, &text_mappers::fill_inside);
    let rows: Vec<Vec<char>> = rendered.lines().map(|l| l.chars().collect()).collect();
    assert_eq!(rendered.len(), 50 * 101);
    assert_eq!(rows.len(), 50);
    for row in rows.iter() {
        assert_eq!(row.len(), 100);
        assert!(row.iter().all(|c| *c == '#' || *c == ' '));
    }
    // the same picture turned over left to right and top to bottom
    for j in 0..50 {
        for i in 0..100 {
            assert_eq!(rows[j][i], rows[j][99 - i]);
            assert_eq!(rows[j][i], rows[49 - j][i]);
        }
    }
    // each row of the disc is one run of marks about the middle column, and the runs grow
    // towards the middle row
    let mut widths = Vec::new();
    for row in rows.iter() {
        let marks: Vec<usize> = (0..100).filter(|i| row[*i] == '#').collect();
        if let (Some(first), Some(last)) = (marks.first(), marks.last()) {
            assert_eq!(last - first + 1, marks.len());
            assert_eq!(first + last, 99);
        }
        widths.push(marks.len());
    }
    for j in 0..24 {
        assert!(widths[j] <= widths[j + 1]);
    }
    // the disc of radius 5 in a square of side 20: rows 13 to 36, and in the middle rows
    // columns 25 to 74
    assert_eq!(widths.iter().filter(|w| **w > 0).count(), 24);
    assert_eq!(widths[12], 0);
    assert_eq!(widths[13], 18);
    assert_eq!(widths[24], 50);
    assert_eq!(widths[25], 50);
    assert_eq!(rows[24][24], ' ');
    assert_eq!(rows[24][25], '#');
    let total: usize = widths.iter().sum();
    assert!(total > 930 && total < 975);
}

#[test]
fn default_color_mapper_is_a_grey_scale() {
    assert_eq!(color_mappers::default(&fx(0.0)), Rgb([128, 128, 128]));
    assert_eq!(color_mappers::default(&fx(-0.5)), Rgb([0, 0, 0]));
    assert_eq!(color_mappers::default(&fx(-0.25)), Rgb([64, 64, 64]));
    assert_eq!(color_mappers::default(&fx(0.25)), Rgb([192, 192, 192]));
    assert_eq!(color_mappers::default(&fx(0.5)), Rgb([255, 255, 255]));
    assert_eq!(color_mappers::default(&fx(-7.0)), Rgb([0, 0, 0]));
    assert_eq!(color_mappers::default(&fx(7.0)), Rgb([255, 255, 255]));
    assert_eq!(color_mappers::default(&Fixed::from_raw(MAX_RAW)), Rgb([255, 255, 255]));
    assert_eq!(color_mappers::default(&Fixed::from_raw(-MAX_RAW)), Rgb([0, 0, 0]));
}

#[test]
fn default_color_mapper_rounds_down() {
    // 1/256 is the step of the scale
    let step = 1i64 << 24;
    assert_eq!(color_mappers::default(&Fixed::from_raw(step - 1)), Rgb([128, 128, 128]));
    assert_eq!(color_mappers::default(&Fixed::from_raw(step)), Rgb([129, 129, 129]));
    assert_eq!(color_mappers::default(&Fixed::from_raw(-1)), Rgb([127, 127, 127]));
    assert_eq!(color_mappers::default(&Fixed::from_raw(-step)), Rgb([127, 127, 127]));
    assert_eq!(color_mappers::default(&Fixed::from_raw(-step - 1)), Rgb([126, 126, 126]));
    assert_eq!(color_mappers::default(&Fixed::from_raw((1i64 << 31) - 1)), Rgb([255, 255, 255]));
    assert_eq!(color_mappers::default(&Fixed::from_raw(-(1i64 << 31) - 1)), Rgb([0, 0, 0]));
}

#[test]
fn mask_color_mapper_draws_the_inside_white() {
    assert_eq!(color_mappers::inside_black_outside_white(&fx(-1.0)), Rgb([255, 255, 255]));
    assert_eq!(
        color_mappers::inside_black_outside_white(&Fixed::from_raw(-1)),
        Rgb([255, 255, 255])
    );
    assert_eq!(color_mappers::inside_black_outside_white(&fx(0.0)), Rgb([0, 0, 0]));
    assert_eq!(color_mappers::inside_black_outside_white(&fx(1.0)), Rgb([0, 0, 0]));
}

#[test]
fn image_has_one_pixel_for_each_grid_point() {
    let circle = Circle { r: fx(5.0) };
    let d = domain(-10.0, -10.0, 10.0, 10.0, 40, 20);
    let raster = image(&circle, &d, &color_mappers::inside_black_outside_white);
    assert_eq!(raster.dimensions(), (40, 20));
    assert_eq!(raster.as_raw().len(), 40 * 20 * 3);
    let m = matrix(&circle, &d);
    for x in 0..40u32 {
        for y in 0..20u32 {
            let expected = color_mappers::inside_black_outside_white(&m[x as usize][y as usize]);
            assert_eq!(raster.get_pixel_checked(x, y), Some(expected));
        }
    }
}

#[test]
fn image_has_no_pixels_beyond_its_size() {
    let circle = Circle { r: fx(5.0) };
    let d = domain(-10.0, -10.0, 10.0, 10.0, 4, 2);
    let raster = image(&circle, &d, &color_mappers::default);
    assert!(raster.get_pixel_checked(3, 1).is_some());
    assert_eq!(raster.get_pixel_checked(4, 1), None);
    assert_eq!(raster.get_pixel_checked(3, 2), None);
    assert_eq!(raster.get_pixel_checked(4, 0), None);
    assert_eq!(raster.get_pixel_checked(u32::MAX, u32::MAX), None);
}

#[test]
fn image_can_be_handed_to_the_image_crate() {
    let across = F::new(|p: Vector<Fixed>| p.x);
    let d = domain(-0.5, 0.0, 0.25, 1.0, 4, 2);
    let raster = image(&across, &d, &color_mappers::default);
    let (width, height) = raster.dimensions();
    let buffer = image::RgbImage::from_raw(width, height, raster.as_raw().clone()).unwrap();
    for x in 0..width {
        for y in 0..height {
            assert_eq!(Some(*buffer.get_pixel(x, y)), raster.get_pixel_checked(x, y));
        }
    }
    assert_eq!(*buffer.get_pixel(1, 1), Rgb([64, 64, 64]));
}

#[test]
fn image_is_laid_out_row_by_row() {
    let across = F::new(|p: Vector<Fixed>| p.x);
    // columns at -0.5, 0, 0.25 and two rows
    let d = domain(-0.5, 0.0, 0.25, 1.0, 4, 2);
    let raster = image(&across, &d, &color_mappers::default);
    assert_eq!(raster.dimensions(), (4, 2));
    assert_eq!(
        raster.as_raw(),
        &vec![
            0u8, 0, 0, 64, 64, 64, 128, 128, 128, 192, 192, 192, 0, 0, 0, 64, 64, 64, 128, 128,
            128, 192, 192, 192
        ]
    );
    let plane = Plane {};
    let d = domain(0.0, -0.5, 1.0, 0.25, 2, 4);
    let raster = image(&plane, &d, &color_mappers::default);
    assert_eq!(raster.dimensions(), (2, 4));
    assert_eq!(
        raster.as_raw(),
        &vec![
            0u8, 0, 0, 0, 0, 0, 64, 64, 64, 64, 64, 64, 128, 128, 128, 128, 128, 128, 192, 192,
            192, 192, 192, 192
        ]
    );
}

#[test]
fn image_takes_any_mapping() {
    let across = F::new(|p: Vector<Fixed>| p.x);
    let d = domain(1.0, 0.0, 3.0, 1.0, 3, 1);
    let raster = image(&across, &d, &|v: &Fixed| Rgb([(v.raw() >> 32) as u8, 7, 9]));
    assert_eq!(raster.as_raw(), &vec![1u8, 7, 9, 2, 7, 9, 3, 7, 9]);
}

#[test]
fn image_of_an_empty_domain_is_empty() {
    let circle = Circle { r: fx(5.0) };
    let raster = image(&circle, &domain(-1.0, -1.0, 1.0, 1.0, 0, 3), &color_mappers::default);
    assert_eq!(raster.dimensions(), (0, 3));
    assert_eq!(raster.as_raw().len(), 0);
    let raster = image(&circle, &domain(-1.0, -1.0, 1.0, 1.0, 3, 0), &color_mappers::default);
    assert_eq!(raster.dimensions(), (3, 0));
    assert_eq!(raster.as_raw().len(), 0);
}

#[test]
fn image_fits_while_its_channels_can_be_counted() {
    assert!(image_fits(&domain(0.0, 0.0, 1.0, 1.0, 512, 512)));
    assert!(image_fits(&domain(0.0, 0.0, 1.0, 1.0, 0, 0)));
    assert!(image_fits(&domain(0.0, 0.0, 1.0, 1.0, 100, 50)));
    let widest = u32::MAX as u128;
    let limit = usize::MAX as u128;
    assert_eq!(
        image_fits(&domain(0.0, 0.0, 1.0, 1.0, u32::MAX as usize, u32::MAX as usize)),
        3 * widest * widest <= limit
    );
    assert_eq!(
        image_fits(&domain(0.0, 0.0, 1.0, 1.0, u32::MAX as usize, 0)),
        3 * widest <= limit
    );
}
