//! Luma and chroma: the YIQ view of three byte channels.
//!
//! The transform is linear with coefficients of three decimals, so each
//! component is a whole number of thousandths and is held as such.

use vstd::prelude::*;

verus! {

/// Luma `y` and the chroma components `i` and `q`, in thousandths.
#[derive(Debug, PartialEq, Eq, Structural)]
pub struct YIQ {
    pub y: i32,
    pub i: i32,
    pub q: i32,
}

/// Luma from which a color counts as light: 128, in thousandths.
pub const LIGHT_FROM: i32 = 128_000;

/// Luma in thousandths: 0.299 r + 0.587 g + 0.114 b.
pub open spec fn luma(r: int, g: int, b: int) -> int {
    299 * r + 587 * g + 114 * b
}

/// In-phase chroma in thousandths: 0.596 r - 0.274 g - 0.322 b.
pub open spec fn in_phase(r: int, g: int, b: int) -> int {
    596 * r - 274 * g - 322 * b
}

/// Quadrature chroma in thousandths: 0.211 r - 0.523 g + 0.312 b.
pub open spec fn quadrature(r: int, g: int, b: int) -> int {
    211 * r - 523 * g + 312 * b
}

/// The YIQ view of three channels.
pub fn yiq_of(r: u8, g: u8, b: u8) -> (out: YIQ)
    ensures
        out.y == luma(r as int, g as int, b as int),
        out.i == in_phase(r as int, g as int, b as int),
        out.q == quadrature(r as int, g as int, b as int),
        0 <= out.y <= 255_000,
{
    let r: i32 = r as i32;
    let g: i32 = g as i32;
    let b: i32 = b as i32;
    YIQ {
        y: 299 * r + 587 * g + 114 * b,
        i: 596 * r - 274 * g - 322 * b,
        q: 211 * r - 523 * g + 312 * b,
    }
}

} // verus!
