//! A color value of four channels: red, green and blue bytes, and an alpha in
//! the unit interval. Colors are built from channel values, from hexadecimal
//! text or from hue, saturation and lightness; they are viewed as hexadecimal
//! text, as YIQ, as HSLA and as CSS-style text, and classified as light, dark
//! or transparent.
//!
//! All arithmetic is exact. Saturation and lightness are counted in
//! hundredths, luma and chroma in thousandths, and alpha is carried as the bit
//! pattern of an IEEE 754 binary64 number.

pub mod alpha;
pub mod color;
pub mod css;
pub mod hex;
pub mod hsl;
pub mod laws;
pub mod parse;
pub mod round_trip;
pub mod text;
pub mod yiq;

pub use color::{Color, RGB, RGBA};
pub use hsl::{HSL, HSLA};
pub use yiq::YIQ;
