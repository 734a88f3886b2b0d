//! Escape-time fractal image generator.
//!
//! The library renders the Mandelbrot set over a rectangular window of the
//! complex plane, sampled at a fixed pixel density. Points are classified by
//! the classic escape-time test `z_{n+1} = z_n^2 + c`; points that escape are
//! coloured by a hue rotation derived from their escape speed, and the pixels
//! are written into an in-memory bitmap buffer. All arithmetic is carried out
//! in fixed-point integers so that every step of the computation has an exact
//! mathematical description.

pub mod fixed;
pub mod color;
pub mod settings;
pub mod evaluator;
pub mod image;
pub mod render;
