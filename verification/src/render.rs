//! The rasterizer.
//!
//! Walks the pixel grid derived from the drawing settings, maps each pixel
//! coordinate to a sample point of the complex plane, runs the escape test
//! on it, and colours the pixel by its escape speed — or leaves it at the
//! black background when the point belongs to the set. The resulting
//! buffer is pinned exactly: its grid equals `rendered_grid`, a pure
//! function of the two settings records.

use vstd::prelude::*;
use vstd::arithmetic::div_mod::{lemma_div_is_ordered, lemma_div_by_multiple};
use std::collections::HashMap;
use crate::fixed::{SCALE, COORD_LIMIT};
use crate::settings::{MandelbrotSettings, DrawingSettings};
use crate::evaluator::{first_escape, belongs_to_mandelbrot_set};
use crate::color::{rgb_triple, color_of, cache_consistent, get_colored_pixel, ColorMap};
use crate::image::{pixel_grid, image_dims, image_new, image_set_pixel};

verus! {

/// Real component of the sample point of pixel column `x`: `x` pixels
/// right of the window's left edge, in fixed-point raw units.
pub open spec fn sample_re(ds: DrawingSettings, x: int) -> int {
    (x * SCALE) / (ds.pixels_per_unit as int) + ds.window_x_min * SCALE
}

/// Imaginary component of the sample point of pixel row `y`: `y` pixels
/// down from the window's top edge, in fixed-point raw units.
pub open spec fn sample_im(ds: DrawingSettings, y: int) -> int {
    ds.window_y_max * SCALE - (y * SCALE) / (ds.pixels_per_unit as int)
}

/// The channels a finished image holds at pixel `(x, y)`: black where the
/// sample point belongs to the set, the escape-speed colour where it
/// escapes.
pub open spec fn pixel_color(ms: MandelbrotSettings, ds: DrawingSettings, x: int, y: int) -> (u8, u8, u8) {
    let f = first_escape(
        sample_re(ds, x),
        sample_im(ds, y),
        ms.max_radius as int,
        ms.max_iterations as nat,
    );
    if f == 0 {
        (0u8, 0u8, 0u8)
    } else {
        rgb_triple(color_of(f as int, ds.color_hue_factor as int))
    }
}

/// The finished image as a pure function of the settings: every pixel of
/// the grid carries `pixel_color`.
pub open spec fn rendered_grid(ms: MandelbrotSettings, ds: DrawingSettings) -> Map<(int, int), (u8, u8, u8)> {
    Map::new(
        |p: (int, int)| 0 <= p.0 < ds.width_px() && 0 <= p.1 < ds.height_px(),
        |p: (int, int)| pixel_color(ms, ds, p.0, p.1),
    )
}

/// The grid part-way through rasterization: rows above `rows` are done, as
/// is row `rows` left of `cols`, and everything after still holds the
/// background.
pub open spec fn partial_grid(ms: MandelbrotSettings, ds: DrawingSettings, rows: int, cols: int) -> Map<(int, int), (u8, u8, u8)> {
    Map::new(
        |p: (int, int)| 0 <= p.0 < ds.width_px() && 0 <= p.1 < ds.height_px(),
        |p: (int, int)|
            if p.1 < rows || (p.1 == rows && p.0 < cols) {
                pixel_color(ms, ds, p.0, p.1)
            } else {
                (0u8, 0u8, 0u8)
            },
    )
}

/// A well-formed window always derives a grid of at least one pixel each
/// way, and each dimension stays well below `u32::MAX`.
pub proof fn lemma_grid_fits(ds: DrawingSettings)
    requires
        ds.wf(),
    ensures
        1 <= ds.width_px() <= 0x0fff_ffff,
        1 <= ds.height_px() <= 0x0fff_ffff,
{
    assert(ds.width_px() >= 1 && ds.height_px() >= 1) by (nonlinear_arith)
        requires
            ds.width_px() == (ds.window_x_max - ds.window_x_min) * ds.pixels_per_unit,
            ds.height_px() == (ds.window_y_max - ds.window_y_min) * ds.pixels_per_unit,
            ds.window_x_max - ds.window_x_min >= 1,
            ds.window_y_max - ds.window_y_min >= 1,
            ds.pixels_per_unit >= 1,
    ;
    assert(ds.width_px() <= 0x0fff_ffff && ds.height_px() <= 0x0fff_ffff) by (nonlinear_arith)
        requires
            16 * ds.width_px() * ds.height_px() <= 0xffff_ffff,
            ds.width_px() >= 1,
            ds.height_px() >= 1,
    ;
}

/// Width of the derived pixel grid: window width in units times the pixel
/// density.
pub fn width_in_pixels(drawing_settings: &DrawingSettings) -> (w: u32)
    requires
        drawing_settings.wf(),
    ensures
        w == drawing_settings.width_px(),
{
    proof {
        lemma_grid_fits(*drawing_settings);
    }
    let units: u32 = (drawing_settings.window_x_max - drawing_settings.window_x_min) as u32;
    units * drawing_settings.pixels_per_unit
}

/// Height of the derived pixel grid: window height in units times the
/// pixel density.
pub fn height_in_pixels(drawing_settings: &DrawingSettings) -> (h: u32)
    requires
        drawing_settings.wf(),
    ensures
        h == drawing_settings.height_px(),
{
    proof {
        lemma_grid_fits(*drawing_settings);
    }
    let units: u32 = (drawing_settings.window_y_max - drawing_settings.window_y_min) as u32;
    units * drawing_settings.pixels_per_unit
}

/// The sample point of pixel `(x, y)`, in fixed-point raw components,
/// inside the range the evaluator accepts.
pub fn sample_point(drawing_settings: &DrawingSettings, x: u32, y: u32) -> (c: (i64, i64))
    requires
        drawing_settings.wf(),
        x < drawing_settings.width_px(),
        y < drawing_settings.height_px(),
    ensures
        c.0 == sample_re(*drawing_settings, x as int),
        c.1 == sample_im(*drawing_settings, y as int),
        -COORD_LIMIT <= c.0 <= COORD_LIMIT,
        -COORD_LIMIT <= c.1 <= COORD_LIMIT,
{
    let ds = drawing_settings;
    let ppu: u64 = ds.pixels_per_unit as u64;
    proof {
        assert(SCALE == 65536);
        assert((x as int) * (SCALE as int) <= 0xffff_ffff * 65536
            && (y as int) * (SCALE as int) <= 0xffff_ffff * 65536
            && (x as int) * (SCALE as int) >= 0
            && (y as int) * (SCALE as int) >= 0) by (nonlinear_arith)
            requires
                0 <= x as int <= 0xffff_ffff,
                0 <= y as int <= 0xffff_ffff,
                SCALE as int == 65536,
        ;
    }
    let xs: u64 = (x as u64) * (SCALE as u64);
    let ys: u64 = (y as u64) * (SCALE as u64);
    proof {
        let s = SCALE as int;
        let p = ds.pixels_per_unit as int;
        let wu = ds.window_x_max - ds.window_x_min;
        let hu = ds.window_y_max - ds.window_y_min;
        assert(xs as int <= (wu * s) * p && ys as int <= (hu * s) * p) by (nonlinear_arith)
            requires
                xs as int == (x as int) * s,
                ys as int == (y as int) * s,
                (x as int) < wu * p,
                (y as int) < hu * p,
                s > 0,
                p > 0,
        ;
        lemma_div_is_ordered(xs as int, (wu * s) * p, p);
        lemma_div_is_ordered(ys as int, (hu * s) * p, p);
        lemma_div_by_multiple(wu * s, p);
        lemma_div_by_multiple(hu * s, p);
        lemma_div_is_ordered(0, xs as int, p);
        lemma_div_is_ordered(0, ys as int, p);
    }
    let qx: u64 = xs / ppu;
    let qy: u64 = ys / ppu;
    let re: i64 = (qx as i64) + (ds.window_x_min as i64) * SCALE;
    let im: i64 = (ds.window_y_max as i64) * SCALE - (qy as i64);
    (re, im)
}

/// Rasterizes the whole grid: walks every pixel, runs the escape test on
/// its sample point, colours the escaping pixels and leaves the others at
/// the black background. The resulting buffer's dimensions and every one
/// of its pixels are exactly those of `rendered_grid`; in particular the
/// result depends on nothing but the two settings records, so repeating a
/// generation reproduces the image pixel for pixel.
pub fn create_mandelbrot_image(mandelbrot_settings: &MandelbrotSettings, drawing_settings: &DrawingSettings) -> (img: bmp::Image)
    requires
        mandelbrot_settings.wf(),
        drawing_settings.wf(),
    ensures
        image_dims(img).0 == drawing_settings.width_px(),
        image_dims(img).1 == drawing_settings.height_px(),
        pixel_grid(img) == rendered_grid(*mandelbrot_settings, *drawing_settings),
{
    let ms = mandelbrot_settings;
    let ds = drawing_settings;
    let width = width_in_pixels(ds);
    let height = height_in_pixels(ds);
    let mut img = image_new(width, height);
    let mut color_map: ColorMap = HashMap::with_capacity(ms.max_iterations as usize);
    proof {
        assert(pixel_grid(img) =~= partial_grid(*ms, *ds, 0, 0));
    }
    let mut y: u32 = 0;
    while y < height
        invariant
            ms.wf(),
            ds.wf(),
            width == ds.width_px(),
            height == ds.height_px(),
            0 <= y <= height,
            image_dims(img) == (width, height),
            cache_consistent(color_map@, ds.color_hue_factor),
            pixel_grid(img) == partial_grid(*ms, *ds, y as int, 0),
        decreases height - y,
    {
        let mut x: u32 = 0;
        while x < width
            invariant
                ms.wf(),
                ds.wf(),
                width == ds.width_px(),
                height == ds.height_px(),
                0 <= y < height,
                0 <= x <= width,
                image_dims(img) == (width, height),
                cache_consistent(color_map@, ds.color_hue_factor),
                pixel_grid(img) == partial_grid(*ms, *ds, y as int, x as int),
            decreases width - x,
        {
            let c = sample_point(ds, x, y);
            let res = belongs_to_mandelbrot_set(c.0, c.1, ms.max_iterations, ms.max_radius);
            if !res.0 {
                let px = get_colored_pixel(res.1, ds.color_hue_factor, &mut color_map);
                image_set_pixel(&mut img, x, y, px);
                proof {
                    assert(pixel_grid(img) =~= partial_grid(*ms, *ds, y as int, x as int + 1));
                }
            } else {
                proof {
                    assert(partial_grid(*ms, *ds, y as int, x as int)
                        =~= partial_grid(*ms, *ds, y as int, x as int + 1));
                }
            }
            x = x + 1;
        }
        proof {
            assert(partial_grid(*ms, *ds, y as int, width as int)
                =~= partial_grid(*ms, *ds, y as int + 1, 0));
        }
        y = y + 1;
    }
    proof {
        assert(partial_grid(*ms, *ds, height as int, 0) =~= rendered_grid(*ms, *ds));
    }
    img
}

/// One generation is reproducible: the finished image is a pure function
/// of the settings, so equal settings describe byte-identical pixel grids.
pub proof fn lemma_generation_deterministic(
    ms1: MandelbrotSettings,
    ds1: DrawingSettings,
    ms2: MandelbrotSettings,
    ds2: DrawingSettings,
)
    requires
        ms1 == ms2,
        ds1 == ds2,
    ensures
        rendered_grid(ms1, ds1) == rendered_grid(ms2, ds2),
{
}

} // verus!
