use vstd::prelude::*;

use crate::corners::Corners;
use crate::CoreError;
use vstd::arithmetic::div_mod::lemma_fundamental_div_mod;

verus! {

/// Tallest output the policy ever emits.
pub const MAX_OUTPUT_HEIGHT: u32 = 1024;

/// Widest output the policy ever emits: the target 16:9 width implied by the
/// height cap, rounded to the nearest integer.
pub const MAX_OUTPUT_WIDTH: u32 = 1820;

/// Positive integer output dimensions.
#[derive(Clone, Copy, Debug, PartialEq, Eq, Structural)]
pub struct Dims {
    pub width: u32,
    pub height: u32,
}

/// Horizontal or vertical extent of a pair of located points, measured from
/// the first to the second; a reversed pair counts as zero extent.
pub open spec fn span(lo: int, hi: int) -> int {
    if hi >= lo {
        hi - lo
    } else {
        0
    }
}

pub open spec fn max2i(a: int, b: int) -> int {
    if a >= b {
        a
    } else {
        b
    }
}

/// Raw content width: the wider of the top and bottom horizontal spans, so a
/// single noisy side does not shrink the estimate.
pub open spec fn raw_width(c: Corners) -> int {
    max2i(span(c.top_left.x as int, c.top_right.x as int), span(c.bottom_left.x as int, c.bottom_right.x as int))
}

/// Raw content height: the taller of the left and right vertical spans.
pub open spec fn raw_height(c: Corners) -> int {
    max2i(span(c.top_left.y as int, c.bottom_left.y as int), span(c.top_right.y as int, c.bottom_right.y as int))
}

/// Measures the raw content extents of the four located points.
pub fn content_spans(c: &Corners) -> (r: (u32, u32))
    ensures
        r.0 == raw_width(*c),
        r.1 == raw_height(*c),
{
    let top = if c.top_right.x >= c.top_left.x {
        c.top_right.x - c.top_left.x
    } else {
        0
    };
    let bottom = if c.bottom_right.x >= c.bottom_left.x {
        c.bottom_right.x - c.bottom_left.x
    } else {
        0
    };
    let left = if c.bottom_left.y >= c.top_left.y {
        c.bottom_left.y - c.top_left.y
    } else {
        0
    };
    let right = if c.bottom_right.y >= c.top_right.y {
        c.bottom_right.y - c.top_right.y
    } else {
        0
    };
    let rw = if top >= bottom {
        top
    } else {
        bottom
    };
    let rh = if left >= right {
        left
    } else {
        right
    };
    (rw, rh)
}

/// The output dimensions the size policy adopts for raw content extents
/// (w, h), before the final positivity check.
///
/// First the extents are shrunk onto the exact 16:9 target aspect, never
/// grown past the detected content bounds: when the height implied by the
/// width (9w/16) stays under the raw height, the raw width is kept over that
/// implied height, else the raw height is kept beside its implied width
/// (16h/9).  Both choices have exact ratio 16:9, so the caps (16·1024/9,
/// 1024) are exceeded together, and the uniform scale-down lands exactly on
/// them.  Each result is rounded to the nearest integer, halves away from
/// zero: 16h/9 never falls on a half, and (9w + 8) / 16 rounds 9w/16's
/// halves up.
pub open spec fn policy_dims(w: int, h: int) -> (int, int) {
    if 9 * w < 16 * h {
        if 9 * w > 16384 {
            (1820, 1024)
        } else {
            (w, (9 * w + 8) / 16)
        }
    } else {
        if h > 1024 {
            (1820, 1024)
        } else {
            ((32 * h + 9) / 18, h)
        }
    }
}

/// Derives the output dimensions from the raw content extents: shrink onto
/// the 16:9 aspect, cap at (1820, 1024), round to nearest.  The result is
/// positive in both dimensions for every positive input; it is rejected
/// exactly when either raw extent is zero.
pub fn size_policy(raw_w: u32, raw_h: u32) -> (r: Result<Dims, CoreError>)
    ensures
        (r is Err) <==> (raw_w == 0 || raw_h == 0),
        r matches Err(e) ==> e == CoreError::InvalidGeometry,
        r matches Ok(d) ==> {
            &&& (d.width as int, d.height as int) == policy_dims(raw_w as int, raw_h as int)
            &&& 1 <= d.width <= MAX_OUTPUT_WIDTH
            &&& 1 <= d.height <= MAX_OUTPUT_HEIGHT
        },
{
    let w = raw_w as u64;
    let h = raw_h as u64;
    let ow: u64;
    let oh: u64;
    if 9 * w < 16 * h {
        if 9 * w > 16384 {
            ow = 1820;
            oh = 1024;
        } else {
            ow = w;
            oh = (9 * w + 8) / 16;
            proof {
                lemma_fundamental_div_mod(9 * (w as int) + 8, 16);
            }
        }
    } else {
        if h > 1024 {
            ow = 1820;
            oh = 1024;
        } else {
            ow = (32 * h + 9) / 18;
            oh = h;
            proof {
                lemma_fundamental_div_mod(32 * (h as int) + 9, 18);
            }
        }
    }
    if ow == 0 || oh == 0 {
        proof {
            assert(raw_w == 0 || raw_h == 0);
        }
        Err(CoreError::InvalidGeometry)
    } else {
        Ok(Dims { width: ow as u32, height: oh as u32 })
    }
}

} // verus!
