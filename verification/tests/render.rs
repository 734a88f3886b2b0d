use mandelbrot::render::{create_mandelbrot_image, width_in_pixels, height_in_pixels};
use mandelbrot::settings::{validate, DrawingSettings, MandelbrotSettings, SettingsError};
use mandelbrot::fixed::{SCALE, RADIUS_LIMIT};

const RADIUS_TWO: i64 = 2 * SCALE;

fn classic_window(pixels_per_unit: u32) -> DrawingSettings {
    DrawingSettings {
        pixels_per_unit,
        window_x_min: -2,
        window_x_max: 1,
        window_y_min: -1,
        window_y_max: 1,
        color_hue_factor: 5,
    }
}

#[test]
fn derived_dimensions() {
    // At 2000 pixels per unit the 3 x 2 unit window derives a grid of
    // 3 * 2000 by 2 * 2000 pixels.
    let ds = classic_window(2000);
    assert_eq!(width_in_pixels(&ds), 6000);
    assert_eq!(height_in_pixels(&ds), 4000);
}

#[test]
fn validation_accepts_the_classic_settings() {
    let ms = MandelbrotSettings { max_iterations: 1000, max_radius: RADIUS_TWO };
    assert_eq!(validate(&ms, &classic_window(2000)), Ok(()));
}

#[test]
fn validation_rejects_each_bad_setting() {
    let ms = MandelbrotSettings { max_iterations: 1000, max_radius: RADIUS_TWO };
    let ds = classic_window(2000);

    let bad = MandelbrotSettings { max_iterations: 0, ..ms };
    assert_eq!(validate(&bad, &ds), Err(SettingsError::NoIterations));

    let bad = MandelbrotSettings { max_radius: 0, ..ms };
    assert_eq!(validate(&bad, &ds), Err(SettingsError::NonPositiveRadius));

    let bad = MandelbrotSettings { max_radius: RADIUS_LIMIT + 1, ..ms };
    assert_eq!(validate(&bad, &ds), Err(SettingsError::RadiusTooLarge));

    let bad = DrawingSettings { pixels_per_unit: 0, ..ds };
    assert_eq!(validate(&ms, &bad), Err(SettingsError::ZeroDensity));

    let bad = DrawingSettings { window_x_min: 1, window_x_max: 1, ..ds };
    assert_eq!(validate(&ms, &bad), Err(SettingsError::EmptyWindowX));

    let bad = DrawingSettings { window_y_min: 2, window_y_max: -2, ..ds };
    assert_eq!(validate(&ms, &bad), Err(SettingsError::EmptyWindowY));

    let bad = DrawingSettings { window_x_min: -40000, ..ds };
    assert_eq!(validate(&ms, &bad), Err(SettingsError::WindowOutOfRange));

    let bad = DrawingSettings { pixels_per_unit: 100000, ..ds };
    assert_eq!(validate(&ms, &bad), Err(SettingsError::GridTooLarge));
}

#[test]
fn rendered_scene_has_background_inside_and_colour_outside() {
    // The classic window at a coarse density: a 30 x 20 grid with the same
    // escape parameters as the full-size image.
    let ms = MandelbrotSettings { max_iterations: 1000, max_radius: RADIUS_TWO };
    let ds = classic_window(10);
    let img = create_mandelbrot_image(&ms, &ds);
    assert_eq!(img.get_width(), 30);
    assert_eq!(img.get_height(), 20);

    // Pixel (20, 10) samples the complex origin, inside the main cardioid:
    // it stays at the black background.
    assert_eq!(img.get_pixel(20, 10), bmp::Pixel::new(0, 0, 0));

    // Pixel (0, 0) samples -2 + i, far outside the set: it escapes on the
    // first update and is coloured with hue 5.
    assert_eq!(img.get_pixel(0, 0), bmp::Pixel::new(191, 74, 63));
}

#[test]
fn generation_is_reproducible() {
    // Two runs with identical settings agree on every pixel.
    let ms = MandelbrotSettings { max_iterations: 1000, max_radius: RADIUS_TWO };
    let ds = classic_window(10);
    let first = create_mandelbrot_image(&ms, &ds);
    let second = create_mandelbrot_image(&ms, &ds);
    assert_eq!(first.get_width(), second.get_width());
    assert_eq!(first.get_height(), second.get_height());
    for y in 0..first.get_height() {
        for x in 0..first.get_width() {
            assert_eq!(first.get_pixel(x, y), second.get_pixel(x, y));
        }
    }
}
