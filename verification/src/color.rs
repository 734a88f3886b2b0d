//! Escape-speed colouring.
//!
//! An escaping sample point is coloured by rotating a hue with its escape
//! iteration count, at fixed half saturation and half lightness, and
//! converting the result to 24-bit RGB. With saturation and lightness both
//! one half, the conversion from the hue/saturation/lightness model is exact
//! in integers: the strongest channel is `255 * 3 / 4` truncated, the
//! weakest `255 / 4` truncated, and the middle channel interpolates linearly
//! with the hue. Computed colours are memoized per iteration count in a
//! `ColorMap`.

use vstd::prelude::*;
use vstd::arithmetic::div_mod::{lemma_div_is_ordered, lemma_fundamental_div_mod_converse};
use std::collections::HashMap;

verus! {

broadcast use vstd::std_specs::hash::group_hash_axioms;

/// A 24-bit RGB colour.
#[derive(Clone, Copy, Debug, PartialEq, Eq, Structural)]
pub struct Rgb {
    pub r: u8,
    pub g: u8,
    pub b: u8,
}

/// The three channels of a colour as a plain tuple.
pub open spec fn rgb_triple(c: Rgb) -> (u8, u8, u8) {
    (c.r, c.g, c.b)
}

/// Memoization table from escape iteration count to the colour computed
/// for it.
pub type ColorMap = HashMap<u32, Rgb>;

/// The hue assigned to an iteration count: a rotation by `hue_factor`
/// degrees per iteration, wrapped to a circle of 360 degrees.
pub open spec fn hue_of(iterations: int, hue_factor: int) -> int {
    (iterations * hue_factor) % 360
}

/// The middle RGB channel for a hue at half saturation and half lightness:
/// `255` times the channel intensity `(90 - |hue % 120 - 60|) / 120`,
/// truncated.
pub open spec fn mid_channel(hue: int) -> int {
    let folded = hue % 120;
    let distance = if folded >= 60 {
        folded - 60
    } else {
        60 - folded
    };
    (255 * (90 - distance)) / 120
}

/// The 24-bit RGB colour of a hue in `[0, 360)` at half saturation and half
/// lightness: per sextant of the hue circle the strongest channel is 191,
/// the weakest 63, and the middle channel follows `mid_channel`.
pub open spec fn color_of_hue(hue: int) -> Rgb {
    let mid = mid_channel(hue) as u8;
    if hue < 60 {
        Rgb { r: 191, g: mid, b: 63 }
    } else if hue < 120 {
        Rgb { r: mid, g: 191, b: 63 }
    } else if hue < 180 {
        Rgb { r: 63, g: 191, b: mid }
    } else if hue < 240 {
        Rgb { r: 63, g: mid, b: 191 }
    } else if hue < 300 {
        Rgb { r: mid, g: 63, b: 191 }
    } else {
        Rgb { r: 191, g: 63, b: mid }
    }
}

/// The colour assigned to an escape iteration count, a pure function of the
/// count and the hue factor.
pub open spec fn color_of(iterations: int, hue_factor: int) -> Rgb {
    color_of_hue(hue_of(iterations, hue_factor))
}

/// A colour cache is consistent when every recorded entry is the colour the
/// hue rotation assigns to its key.
pub open spec fn cache_consistent(cache: Map<u32, Rgb>, hue_factor: u32) -> bool {
    forall|k: u32| cache.contains_key(k) ==> cache[k] == color_of(k as int, hue_factor as int)
}

/// Converts a hue in `[0, 360)` to RGB at half saturation and half
/// lightness, exactly as `color_of_hue` describes.
pub fn hue_to_rgb(hue: u32) -> (c: Rgb)
    requires
        hue < 360,
    ensures
        c == color_of_hue(hue as int),
{
    let folded: u32 = hue % 120;
    let distance: u32 = if folded >= 60 {
        folded - 60
    } else {
        60 - folded
    };
    let scaled: u32 = 255 * (90 - distance);
    let mid_val: u32 = scaled / 120;
    proof {
        lemma_fundamental_div_mod_converse(22950, 120, 191, 30);
        lemma_div_is_ordered(scaled as int, 22950, 120);
        assert(mid_val as int == mid_channel(hue as int));
    }
    let mid: u8 = mid_val as u8;
    if hue < 60 {
        Rgb { r: 191, g: mid, b: 63 }
    } else if hue < 120 {
        Rgb { r: mid, g: 191, b: 63 }
    } else if hue < 180 {
        Rgb { r: 63, g: 191, b: mid }
    } else if hue < 240 {
        Rgb { r: 63, g: mid, b: 191 }
    } else if hue < 300 {
        Rgb { r: mid, g: 63, b: 191 }
    } else {
        Rgb { r: 191, g: 63, b: mid }
    }
}

/// Returns the colour for an iteration count, reading it from the cache
/// when present and computing and recording it otherwise. Either way the
/// result is the pure colour of `(iterations, color_hue_factor)`, the cache
/// stays consistent, and its population only grows.
pub fn get_colored_pixel(iterations: u32, color_hue_factor: u32, color_map: &mut ColorMap) -> (pixel: Rgb)
    requires
        cache_consistent(old(color_map)@, color_hue_factor),
    ensures
        pixel == color_of(iterations as int, color_hue_factor as int),
        cache_consistent(final(color_map)@, color_hue_factor),
        final(color_map)@.contains_key(iterations),
        forall|k: u32| old(color_map)@.contains_key(k) ==> final(color_map)@.contains_key(k),
{
    match color_map.get(&iterations) {
        Some(cached) => *cached,
        None => {
            proof {
                assert((iterations as int) * (color_hue_factor as int) <= 0xffff_ffff * 0xffff_ffff)
                    by (nonlinear_arith)
                    requires
                        0 <= iterations as int <= 0xffff_ffff,
                        0 <= color_hue_factor as int <= 0xffff_ffff,
                ;
                assert((iterations as int) * (color_hue_factor as int) >= 0) by (nonlinear_arith)
                    requires
                        0 <= iterations as int,
                        0 <= color_hue_factor as int,
                ;
            }
            let hue: u32 = ((iterations as u64 * color_hue_factor as u64) % 360) as u32;
            let pixel = hue_to_rgb(hue);
            color_map.insert(iterations, pixel);
            pixel
        },
    }
}

} // verus!
