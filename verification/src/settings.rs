//! Configuration of one image generation.
//!
//! `MandelbrotSettings` governs the escape test, `DrawingSettings` the
//! sampled window of the complex plane and the pixel density. Both carry a
//! well-formedness predicate that `validate` establishes; rendering demands
//! it, so degenerate or overflowing grids are rejected before any work is
//! done.

use vstd::prelude::*;
use crate::fixed::{SCALE, RADIUS_LIMIT};

verus! {

/// Largest magnitude accepted for a window coordinate, in whole units of
/// the complex plane. Keeps every sample coordinate well inside the range
/// of the fixed-point evaluator.
pub const WINDOW_LIMIT: i32 = 32768;

/// Parameters of the escape test. `max_radius` is a fixed-point raw value
/// (see `crate::fixed`): the real escape radius times `SCALE`.
pub struct MandelbrotSettings {
    pub max_iterations: u32,
    pub max_radius: i64,
}

impl MandelbrotSettings {
    /// The escape test needs at least one iteration and a positive radius
    /// small enough for exact fixed-point magnitude comparisons.
    pub open spec fn wf(self) -> bool {
        &&& self.max_iterations > 0
        &&& 0 < self.max_radius <= RADIUS_LIMIT
    }
}

/// Parameters of the sampled window: a rectangle of the complex plane in
/// whole units, a pixel density per unit, and the hue rotation factor for
/// colouring.
pub struct DrawingSettings {
    pub pixels_per_unit: u32,
    pub window_x_min: i32,
    pub window_x_max: i32,
    pub window_y_min: i32,
    pub window_y_max: i32,
    pub color_hue_factor: u32,
}

impl DrawingSettings {
    /// Width of the pixel grid: window width in units times the density.
    pub open spec fn width_px(self) -> int {
        (self.window_x_max - self.window_x_min) * self.pixels_per_unit
    }

    /// Height of the pixel grid: window height in units times the density.
    pub open spec fn height_px(self) -> int {
        (self.window_y_max - self.window_y_min) * self.pixels_per_unit
    }

    /// A drawable window: nonzero density, a nonempty rectangle with
    /// coordinates inside `WINDOW_LIMIT`, and a derived pixel grid small
    /// enough for the image buffer's 32-bit size arithmetic.
    pub open spec fn wf(self) -> bool {
        &&& self.pixels_per_unit > 0
        &&& self.window_x_min < self.window_x_max
        &&& self.window_y_min < self.window_y_max
        &&& -WINDOW_LIMIT <= self.window_x_min && self.window_x_max <= WINDOW_LIMIT
        &&& -WINDOW_LIMIT <= self.window_y_min && self.window_y_max <= WINDOW_LIMIT
        &&& 16 * self.width_px() * self.height_px() <= u32::MAX
    }
}

/// Why a configuration was rejected before rendering.
#[derive(Clone, Copy, Debug, PartialEq, Eq, Structural)]
pub enum SettingsError {
    /// `max_iterations` is zero.
    NoIterations,
    /// `max_radius` is zero or negative.
    NonPositiveRadius,
    /// `max_radius` is beyond the exact range of the fixed-point test.
    RadiusTooLarge,
    /// `pixels_per_unit` is zero.
    ZeroDensity,
    /// The window rectangle is empty in the horizontal direction.
    EmptyWindowX,
    /// The window rectangle is empty in the vertical direction.
    EmptyWindowY,
    /// A window coordinate lies outside `WINDOW_LIMIT`.
    WindowOutOfRange,
    /// The derived pixel grid is too large for the image buffer.
    GridTooLarge,
}

impl SettingsError {
    /// A short description of the rejection, for reporting outside the
    /// library.
    pub fn message(&self) -> &'static str {
        match self {
            SettingsError::NoIterations => "max_iterations must be positive",
            SettingsError::NonPositiveRadius => "max_radius must be positive",
            SettingsError::RadiusTooLarge => "max_radius is too large for the fixed-point escape test",
            SettingsError::ZeroDensity => "pixels_per_unit must be positive",
            SettingsError::EmptyWindowX => "window_x_min must be below window_x_max",
            SettingsError::EmptyWindowY => "window_y_min must be below window_y_max",
            SettingsError::WindowOutOfRange => "a window coordinate is out of range",
            SettingsError::GridTooLarge => "the derived pixel grid is too large",
        }
    }
}

/// Checks a configuration pair, accepting exactly the well-formed ones and
/// naming the first violated rule otherwise.
pub fn validate(mandelbrot_settings: &MandelbrotSettings, drawing_settings: &DrawingSettings) -> (r: Result<(), SettingsError>)
    ensures
        r is Ok <==> mandelbrot_settings.wf() && drawing_settings.wf(),
{
    let ms = mandelbrot_settings;
    let ds = drawing_settings;
    if ms.max_iterations == 0 {
        return Err(SettingsError::NoIterations);
    }
    if ms.max_radius <= 0 {
        return Err(SettingsError::NonPositiveRadius);
    }
    if ms.max_radius > RADIUS_LIMIT {
        return Err(SettingsError::RadiusTooLarge);
    }
    if ds.pixels_per_unit == 0 {
        return Err(SettingsError::ZeroDensity);
    }
    if ds.window_x_min >= ds.window_x_max {
        return Err(SettingsError::EmptyWindowX);
    }
    if ds.window_y_min >= ds.window_y_max {
        return Err(SettingsError::EmptyWindowY);
    }
    if ds.window_x_min < -WINDOW_LIMIT || ds.window_x_max > WINDOW_LIMIT
        || ds.window_y_min < -WINDOW_LIMIT || ds.window_y_max > WINDOW_LIMIT {
        return Err(SettingsError::WindowOutOfRange);
    }
    let width_units: u64 = (ds.window_x_max - ds.window_x_min) as u64;
    let height_units: u64 = (ds.window_y_max - ds.window_y_min) as u64;
    proof {
        assert(width_units as int * (ds.pixels_per_unit as int) <= 65536 * 0xffff_ffff)
            by (nonlinear_arith)
            requires
                0 <= width_units as int <= 65536,
                0 <= ds.pixels_per_unit as int <= 0xffff_ffff,
        ;
        assert(height_units as int * (ds.pixels_per_unit as int) <= 65536 * 0xffff_ffff)
            by (nonlinear_arith)
            requires
                0 <= height_units as int <= 65536,
                0 <= ds.pixels_per_unit as int <= 0xffff_ffff,
        ;
    }
    let width: u64 = width_units * ds.pixels_per_unit as u64;
    let height: u64 = height_units * ds.pixels_per_unit as u64;
    proof {
        assert(width as int * height as int <= 0x1_0000_0000_0000 * 0x1_0000_0000_0000)
            by (nonlinear_arith)
            requires
                0 <= width as int <= 0x1_0000_0000_0000,
                0 <= height as int <= 0x1_0000_0000_0000,
        ;
    }
    let cells: u128 = (width as u128) * (height as u128);
    proof {
        assert(width as int == ds.width_px());
        assert(height as int == ds.height_px());
        assert(cells as int == ds.width_px() * ds.height_px());
        assert(16 * ds.width_px() * ds.height_px() == 16 * (ds.width_px() * ds.height_px()))
            by (nonlinear_arith);
    }
    if cells > 268435455 {
        return Err(SettingsError::GridTooLarge);
    }
    Ok(())
}

} // verus!
