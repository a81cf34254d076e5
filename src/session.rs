use vstd::prelude::*;

use crate::bounce::{Axis, Simulation, Span};
use crate::config::SCALE;

verus! {

/// Simulation units per pixel: positions are tracked to a thousandth of a pixel.
pub const UNITS_PER_PIXEL: u64 = 1000;

/// Thumbnail size of a preview inside a host window, before the size factor.
pub const EMBEDDED_PREVIEW_W: u32 = 200;
pub const EMBEDDED_PREVIEW_H: u32 = 150;

/// Thumbnail size of a floating preview, before the size factor.
pub const FLOATING_PREVIEW_W: u32 = 400;
pub const FLOATING_PREVIEW_H: u32 = 300;

/// Smallest thumbnail bounds of a preview.
pub const MIN_PREVIEW_ICON_W: u32 = 40;
pub const MIN_PREVIEW_ICON_H: u32 = 30;

/// `len` scaled by a factor in millionths, rounded down, saturating at `u32::MAX`.
pub open spec fn scaled(len: u32, factor: u64) -> int {
    let v = (len as int * factor as int) / (SCALE as int);
    if v > u32::MAX {
        u32::MAX as int
    } else {
        v
    }
}

pub open spec fn at_least(v: int, floor: int) -> int {
    if v < floor {
        floor
    } else {
        v
    }
}

fn scale_len(len: u32, factor: u64) -> (r: u32)
    ensures
        r == scaled(len, factor),
{
    assert(len as int * factor as int <= u32::MAX as int * u64::MAX as int) by (nonlinear_arith)
        requires
            len <= u32::MAX,
            factor <= u64::MAX,
    ;
    let v: u128 = (len as u128 * factor as u128) / (SCALE as u128);
    if v > u32::MAX as u128 {
        u32::MAX
    } else {
        v as u32
    }
}

/// Bounds for the icon in the full-screen saver: the viewport scaled by the size
/// factor (in millionths).
pub fn icon_bounds(view_w: u32, view_h: u32, size_factor: u64) -> (r: (u32, u32))
    ensures
        r.0 == scaled(view_w, size_factor),
        r.1 == scaled(view_h, size_factor),
{
    (scale_len(view_w, size_factor), scale_len(view_h, size_factor))
}

/// Bounds for the icon in a preview: the preview box scaled by the size factor,
/// but never below `MIN_PREVIEW_ICON`.
pub fn preview_icon_bounds(embedded: bool, size_factor: u64) -> (r: (u32, u32))
    ensures
        r.0 == at_least(
            scaled(
                if embedded {
                    EMBEDDED_PREVIEW_W
                } else {
                    FLOATING_PREVIEW_W
                },
                size_factor,
            ),
            MIN_PREVIEW_ICON_W as int,
        ),
        r.1 == at_least(
            scaled(
                if embedded {
                    EMBEDDED_PREVIEW_H
                } else {
                    FLOATING_PREVIEW_H
                },
                size_factor,
            ),
            MIN_PREVIEW_ICON_H as int,
        ),
{
    let w = scale_len(
        if embedded {
            EMBEDDED_PREVIEW_W
        } else {
            FLOATING_PREVIEW_W
        },
        size_factor,
    );
    let h = scale_len(
        if embedded {
            EMBEDDED_PREVIEW_H
        } else {
            FLOATING_PREVIEW_H
        },
        size_factor,
    );
    (
        if w < MIN_PREVIEW_ICON_W {
            MIN_PREVIEW_ICON_W
        } else {
            w
        },
        if h < MIN_PREVIEW_ICON_H {
            MIN_PREVIEW_ICON_H
        } else {
            h
        },
    )
}

/// The speed of each axis in simulation units per second, from a configured speed
/// in millionths of a pixel per second; a preview moves at half speed.
pub open spec fn axis_speed(speed: u64, preview: bool) -> int {
    if preview {
        speed as int / 2000
    } else {
        speed as int / 1000
    }
}

/// The extent `[-len/2, len/2]` of a viewport side of `len` pixels, in units
/// (`UNITS_PER_PIXEL` to the pixel).
pub open spec fn centred_span(len: u32) -> Span {
    Span { lo: -(len as int * 500) as i64, hi: (len as int * 500) as i64 }
}

pub open spec fn min_len(a: u32, b: u32) -> int {
    if a < b {
        a as int
    } else {
        b as int
    }
}

/// The simulation a session starts with: the viewport centred on the origin, the
/// icon (cut down to the viewport if larger) in its middle, moving up and to the
/// right at the configured speed.
pub fn start_simulation(
    view_w: u32,
    view_h: u32,
    icon_w: u32,
    icon_h: u32,
    speed: u64,
    preview: bool,
) -> (s: Simulation)
    ensures
        s.wf(),
        s.horizontal == centred_span(view_w),
        s.vertical == centred_span(view_h),
        s.x == (Axis {
            center: 0,
            half: (min_len(icon_w, view_w) * 500) as i64,
            speed: axis_speed(speed, preview) as u64,
            ascending: true,
        }),
        s.y == (Axis {
            center: 0,
            half: (min_len(icon_h, view_h) * 500) as i64,
            speed: axis_speed(speed, preview) as u64,
            ascending: true,
        }),
{
    let hw: i64 = view_w as i64 * 500;
    let hh: i64 = view_h as i64 * 500;
    let iw: i64 = if icon_w < view_w {
        icon_w as i64
    } else {
        view_w as i64
    } * 500;
    let ih: i64 = if icon_h < view_h {
        icon_h as i64
    } else {
        view_h as i64
    } * 500;
    let v: u64 = if preview {
        speed / 2000
    } else {
        speed / 1000
    };
    Simulation {
        x: Axis { center: 0, half: iw, speed: v, ascending: true },
        y: Axis { center: 0, half: ih, speed: v, ascending: true },
        horizontal: Span { lo: -hw, hi: hw },
        vertical: Span { lo: -hh, hi: hh },
    }
}

} // verus!
