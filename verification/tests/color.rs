use mandelbrot::color::{get_colored_pixel, hue_to_rgb, ColorMap, Rgb};

#[test]
fn hue_zero_is_half_saturated_red() {
    // iterations = 0, hue_factor = 5: hue = 0, a red at half saturation and
    // half lightness: channels 0.75, 0.25, 0.25 scaled to 255 by truncation.
    let mut cache = ColorMap::new();
    let pixel = get_colored_pixel(0, 5, &mut cache);
    assert_eq!(pixel, Rgb { r: 191, g: 63, b: 63 });
}

#[test]
fn color_mapper_is_pure() {
    // The same arguments give the same colour whether the caches are fresh
    // or shared, and a cache hit returns the identical value.
    let mut first_cache = ColorMap::new();
    let mut second_cache = ColorMap::new();
    let first = get_colored_pixel(17, 5, &mut first_cache);
    let second = get_colored_pixel(17, 5, &mut second_cache);
    assert_eq!(first, second);
    let hit = get_colored_pixel(17, 5, &mut first_cache);
    assert_eq!(first, hit);
    assert_eq!(first_cache.len(), 1);
}

#[test]
fn hue_rotation_wraps_at_full_circle() {
    // iterations * hue_factor is reduced modulo 360: 100 * 18 = 1800 wraps
    // to hue 0.
    let mut cache = ColorMap::new();
    let wrapped = get_colored_pixel(100, 18, &mut cache);
    assert_eq!(wrapped, Rgb { r: 191, g: 63, b: 63 });
}

#[test]
fn sextants_of_the_hue_circle() {
    // One exact value per sextant of the hue circle.
    assert_eq!(hue_to_rgb(50), Rgb { r: 191, g: 170, b: 63 });
    assert_eq!(hue_to_rgb(60), Rgb { r: 191, g: 191, b: 63 });
    assert_eq!(hue_to_rgb(120), Rgb { r: 63, g: 191, b: 63 });
    assert_eq!(hue_to_rgb(180), Rgb { r: 63, g: 191, b: 191 });
    assert_eq!(hue_to_rgb(240), Rgb { r: 63, g: 63, b: 191 });
    assert_eq!(hue_to_rgb(300), Rgb { r: 191, g: 63, b: 191 });
    assert_eq!(hue_to_rgb(359), Rgb { r: 191, g: 63, b: 65 });
}
