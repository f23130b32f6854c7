use vstd::prelude::*;

use crate::corners::{CornerPoint, Corners};

verus! {

/// Three points lie on one line exactly when the cross product of the two
/// difference vectors vanishes.
pub open spec fn collinear(p: CornerPoint, q: CornerPoint, r: CornerPoint) -> bool {
    (q.x - p.x) * (r.y - p.y) == (q.y - p.y) * (r.x - p.x)
}

/// A set of control points is degenerate when any three of the four lie on
/// one line; the projective solve is invalid for such points.
pub open spec fn degenerate(c: Corners) -> bool {
    ||| collinear(c.top_left, c.top_right, c.bottom_right)
    ||| collinear(c.top_left, c.top_right, c.bottom_left)
    ||| collinear(c.top_left, c.bottom_right, c.bottom_left)
    ||| collinear(c.top_right, c.bottom_right, c.bottom_left)
}

fn cross_vanishes(p: &CornerPoint, q: &CornerPoint, r: &CornerPoint) -> (b: bool)
    ensures
        b == collinear(*p, *q, *r),
{
    let ax = q.x as i128 - p.x as i128;
    let ay = q.y as i128 - p.y as i128;
    let bx = r.x as i128 - p.x as i128;
    let by = r.y as i128 - p.y as i128;
    proof {
        assert(ax * by <= 0x1_0000_0000_0000_0000 && ax * by >= -0x1_0000_0000_0000_0000)
            by (nonlinear_arith)
            requires
                -0x1_0000_0000 < ax < 0x1_0000_0000,
                -0x1_0000_0000 < by < 0x1_0000_0000,
        ;
        assert(ay * bx <= 0x1_0000_0000_0000_0000 && ay * bx >= -0x1_0000_0000_0000_0000)
            by (nonlinear_arith)
            requires
                -0x1_0000_0000 < ay < 0x1_0000_0000,
                -0x1_0000_0000 < bx < 0x1_0000_0000,
        ;
    }
    ax * by == ay * bx
}

/// Tests whether any three of the four control points are collinear.
pub fn is_degenerate(c: &Corners) -> (b: bool)
    ensures
        b == degenerate(*c),
{
    if cross_vanishes(&c.top_left, &c.top_right, &c.bottom_right) {
        true
    } else if cross_vanishes(&c.top_left, &c.top_right, &c.bottom_left) {
        true
    } else if cross_vanishes(&c.top_left, &c.bottom_right, &c.bottom_left) {
        true
    } else {
        cross_vanishes(&c.top_right, &c.bottom_right, &c.bottom_left)
    }
}

} // verus!
