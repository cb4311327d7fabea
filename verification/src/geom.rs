//! Logical-point geometry and the mapping from clip rectangles to physical
//! scissor rectangles.
//!
//! Logical coordinates and the pixels-per-point scale factor are carried in
//! fixed-point *sub-units* of 1/256: a length of `n` sub-units is `n / 256`
//! logical points, and a scale of `n` sub-units is `n / 256` pixels per
//! point. The shell converts the GUI layer's fractional values into
//! sub-units once, at the edge; everything past that point is exact integer
//! arithmetic.

use vstd::prelude::*;

verus! {

/// Number of sub-units per logical point (and per unit of scale).
pub const SUB_UNITS: u32 = 256;

/// Largest admitted pixels-per-point value, in sub-units (a scale factor of
/// 4096 pixels per point). Keeps every scissor product inside `i64`.
pub const MAX_PIXEL_PER_POINT: u32 = 0x100000;

/// Axis-aligned rectangle in logical points, in sub-units of 1/256 point.
#[derive(Clone, Copy, Debug, PartialEq, Eq, Structural)]
pub struct Rect {
    /// Left edge, in sub-point units.
    pub left: i32,
    /// Top edge, in sub-point units.
    pub top: i32,
    /// Right edge, in sub-point units.
    pub right: i32,
    /// Bottom edge, in sub-point units.
    pub bottom: i32,
}

/// The single source of truth for converting logical rectangles into
/// physical pixel rectangles: scale factor plus the target's pixel size.
#[derive(Clone, Copy, Debug, PartialEq, Eq, Structural)]
pub struct ScreenDescriptor {
    /// Pixels per logical point, in sub-units of 1/256.
    pub pixel_per_point: u32,
    /// Target width in physical pixels.
    pub screen_width: u32,
    /// Target height in physical pixels.
    pub screen_height: u32,
}

impl ScreenDescriptor {
    /// A screen descriptor is meaningful only with a positive, bounded scale
    /// factor.
    pub open spec fn wf(self) -> bool {
        0 < self.pixel_per_point <= MAX_PIXEL_PER_POINT
    }
}

/// A physical-pixel scissor rectangle: x, y, width, height.
#[derive(Clone, Copy, Debug, PartialEq, Eq, Structural)]
pub struct ScissorRect {
    /// Left edge in pixels from the left of the target.
    pub x: u32,
    /// Top edge in pixels from the top of the target.
    pub y: u32,
    /// Width in pixels; never zero.
    pub width: u32,
    /// Height in pixels; never zero.
    pub height: u32,
}

/// One logical coordinate scaled to a physical pixel coordinate: the product
/// of coordinate and scale (both in sub-units), rounded to the nearest pixel
/// with halves away from zero, with everything at or below zero collapsing
/// to pixel zero.
pub open spec fn scaled_coord(coord: int, pixel_per_point: int) -> int {
    let v = coord * pixel_per_point;
    if v <= 0 {
        0
    } else {
        (v + SUB_UNITS * SUB_UNITS / 2) / (SUB_UNITS * SUB_UNITS)
    }
}

/// A scaled coordinate clamped to an upper pixel bound.
pub open spec fn clamped_coord(coord: int, pixel_per_point: int, bound: int) -> int {
    let p = scaled_coord(coord, pixel_per_point);
    if p > bound {
        bound
    } else {
        p
    }
}

/// What the scissor rectangle of a clip rectangle is: each edge scaled by
/// the pixels-per-point factor and clamped to the screen, with a fully
/// clipped (zero-width or zero-height) result mapping to `None`.
pub open spec fn scissor_spec(clip: Rect, screen: ScreenDescriptor) -> Option<ScissorRect> {
    let ppp = screen.pixel_per_point as int;
    let x0 = clamped_coord(clip.left as int, ppp, screen.screen_width as int);
    let y0 = clamped_coord(clip.top as int, ppp, screen.screen_height as int);
    let x1 = clamped_coord(clip.right as int, ppp, screen.screen_width as int);
    let y1 = clamped_coord(clip.bottom as int, ppp, screen.screen_height as int);
    if x0 < x1 && y0 < y1 {
        Some(ScissorRect {
            x: x0 as u32,
            y: y0 as u32,
            width: (x1 - x0) as u32,
            height: (y1 - y0) as u32,
        })
    } else {
        None
    }
}

/// Scale one coordinate and clamp it to `bound`.
fn scale_clamp(coord: i32, pixel_per_point: u32, bound: u32) -> (r: u32)
    requires
        0 < pixel_per_point <= MAX_PIXEL_PER_POINT,
    ensures
        r == clamped_coord(coord as int, pixel_per_point as int, bound as int),
{
    let c: i64 = coord as i64;
    let f: i64 = pixel_per_point as i64;
    assert(-0x8000_0000i64 * 0x100000 <= c * f <= 0x8000_0000i64 * 0x100000) by (nonlinear_arith)
        requires
            -0x8000_0000 <= c < 0x8000_0000,
            0 < f <= 0x100000,
    ;
    let v: i64 = c * f;
    if v <= 0 {
        0
    } else {
        let p: i64 = (v + 32768) / 65536;
        if p > bound as i64 {
            bound
        } else {
            p as u32
        }
    }
}

/// Map a clip rectangle in logical points to the physical scissor rectangle
/// it covers on `screen`. `None` means the primitive is fully clipped and
/// must be skipped; that is not an error.
pub fn to_scissor_rect(clip: &Rect, screen: &ScreenDescriptor) -> (r: Option<ScissorRect>)
    requires
        screen.wf(),
    ensures
        r == scissor_spec(*clip, *screen),
{
    let x0 = scale_clamp(clip.left, screen.pixel_per_point, screen.screen_width);
    let y0 = scale_clamp(clip.top, screen.pixel_per_point, screen.screen_height);
    let x1 = scale_clamp(clip.right, screen.pixel_per_point, screen.screen_width);
    let y1 = scale_clamp(clip.bottom, screen.pixel_per_point, screen.screen_height);
    if x0 < x1 && y0 < y1 {
        Some(ScissorRect { x: x0, y: y0, width: x1 - x0, height: y1 - y0 })
    } else {
        None
    }
}

} // verus!
