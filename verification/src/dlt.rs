use vstd::prelude::*;

use crate::corners::{CornerPoint, Corners};
use crate::policy::Dims;

verus! {

/// The control point of correspondence `k`, clockwise from the top left.
pub open spec fn point_of(c: Corners, k: int) -> CornerPoint {
    if k == 0 {
        c.top_left
    } else if k == 1 {
        c.top_right
    } else if k == 2 {
        c.bottom_right
    } else {
        c.bottom_left
    }
}

/// Horizontal target coordinate of correspondence `k`: the four control
/// points map to (0,0), (W,0), (W,H), (0,H) in that order.
pub open spec fn target_u(d: Dims, k: int) -> int {
    if k == 1 || k == 2 {
        d.width as int
    } else {
        0
    }
}

/// Vertical target coordinate of correspondence `k`.
pub open spec fn target_v(d: Dims, k: int) -> int {
    if k == 2 || k == 3 {
        d.height as int
    } else {
        0
    }
}

/// Coefficient (r, j) of the direct-linear-transform system.  The unknowns
/// are the first eight entries (a..h) of the row-major transform matrix
/// [a b c; d e f; g h 1] that carries each control point (x, y) to its
/// target (u, v) = ((ax+by+c)/(gx+hy+1), (dx+ey+f)/(gx+hy+1)).  Rows 0..4
/// state the u-equation of each correspondence, rows 4..8 the v-equation:
///   x·a + y·b + c − x·u·g − y·u·h = u
///   x·d + y·e + f − x·v·g − y·v·h = v
pub open spec fn dlt_entry(c: Corners, d: Dims, r: int, j: int) -> int {
    if r < 4 {
        let p = point_of(c, r);
        let u = target_u(d, r);
        if j == 0 {
            p.x as int
        } else if j == 1 {
            p.y as int
        } else if j == 2 {
            1
        } else if j == 6 {
            -(p.x * u)
        } else if j == 7 {
            -(p.y * u)
        } else {
            0
        }
    } else {
        let p = point_of(c, r - 4);
        let v = target_v(d, r - 4);
        if j == 3 {
            p.x as int
        } else if j == 4 {
            p.y as int
        } else if j == 5 {
            1
        } else if j == 6 {
            -(p.x * v)
        } else if j == 7 {
            -(p.y * v)
        } else {
            0
        }
    }
}

/// Right-hand side of row `r` of the system.
pub open spec fn dlt_rhs(c: Corners, d: Dims, r: int) -> int {
    if r < 4 {
        target_u(d, r)
    } else {
        target_v(d, r - 4)
    }
}

/// The 8×8 direct-linear-transform system for one set of control points and
/// one target size, in exact integer arithmetic: row-major coefficients and
/// the right-hand side.  A least-squares solve of it yields the projection.
pub struct DltSystem {
    pub coeffs: Vec<i128>,
    pub rhs: Vec<i128>,
}

/// `s` is exactly the system of `c` and `d`.
pub open spec fn dlt_matches(s: DltSystem, c: Corners, d: Dims) -> bool {
    &&& s.coeffs@.len() == 64
    &&& s.rhs@.len() == 8
    &&& forall|r: int, j: int|
        0 <= r < 8 && 0 <= j < 8 ==> #[trigger] s.coeffs@[8 * r + j] == dlt_entry(c, d, r, j)
    &&& forall|r: int| 0 <= r < 8 ==> #[trigger] s.rhs@[r] == dlt_rhs(c, d, r)
}

fn point_at(c: &Corners, k: usize) -> (p: CornerPoint)
    requires
        k < 4,
    ensures
        p == point_of(*c, k as int),
{
    if k == 0 {
        c.top_left
    } else if k == 1 {
        c.top_right
    } else if k == 2 {
        c.bottom_right
    } else {
        c.bottom_left
    }
}

/// Builds the direct-linear-transform system of the four point
/// correspondences.
pub fn dlt_system(c: &Corners, d: &Dims) -> (s: DltSystem)
    ensures
        dlt_matches(s, *c, *d),
{
    let mut coeffs: Vec<i128> = Vec::new();
    let mut rhs: Vec<i128> = Vec::new();
    let mut r: usize = 0;
    while r < 8
        invariant
            r <= 8,
            coeffs@.len() == 8 * r,
            rhs@.len() == r,
            forall|r0: int, j: int|
                0 <= r0 < r && 0 <= j < 8 ==> #[trigger] coeffs@[8 * r0 + j] == dlt_entry(
                    *c,
                    *d,
                    r0,
                    j,
                ),
            forall|r0: int| 0 <= r0 < r ==> #[trigger] rhs@[r0] == dlt_rhs(*c, *d, r0),
        decreases 8 - r,
    {
        let k = if r < 4 {
            r
        } else {
            r - 4
        };
        let p = point_at(c, k);
        let u: u32 = if k == 1 || k == 2 {
            d.width
        } else {
            0
        };
        let v: u32 = if k == 2 || k == 3 {
            d.height
        } else {
            0
        };
        let px = p.x as i128;
        let py = p.y as i128;
        proof {
            assert(px * (u as i128) < 0x1_0000_0000_0000_0000 && px * (u as i128) >= 0)
                by (nonlinear_arith)
                requires
                    0 <= px < 0x1_0000_0000,
                    0 <= (u as i128) < 0x1_0000_0000,
            ;
            assert(py * (u as i128) < 0x1_0000_0000_0000_0000 && py * (u as i128) >= 0)
                by (nonlinear_arith)
                requires
                    0 <= py < 0x1_0000_0000,
                    0 <= (u as i128) < 0x1_0000_0000,
            ;
            assert(px * (v as i128) < 0x1_0000_0000_0000_0000 && px * (v as i128) >= 0)
                by (nonlinear_arith)
                requires
                    0 <= px < 0x1_0000_0000,
                    0 <= (v as i128) < 0x1_0000_0000,
            ;
            assert(py * (v as i128) < 0x1_0000_0000_0000_0000 && py * (v as i128) >= 0)
                by (nonlinear_arith)
                requires
                    0 <= py < 0x1_0000_0000,
                    0 <= (v as i128) < 0x1_0000_0000,
            ;
        }
        if r < 4 {
            coeffs.push(px);
            coeffs.push(py);
            coeffs.push(1);
            coeffs.push(0);
            coeffs.push(0);
            coeffs.push(0);
            coeffs.push(-(px * (u as i128)));
            coeffs.push(-(py * (u as i128)));
            rhs.push(u as i128);
        } else {
            coeffs.push(0);
            coeffs.push(0);
            coeffs.push(0);
            coeffs.push(px);
            coeffs.push(py);
            coeffs.push(1);
            coeffs.push(-(px * (v as i128)));
            coeffs.push(-(py * (v as i128)));
            rhs.push(v as i128);
        }
        proof {
            assert forall|r0: int, j: int|
                0 <= r0 < r + 1 && 0 <= j < 8 implies #[trigger] coeffs@[8 * r0 + j] == dlt_entry(
                *c,
                *d,
                r0,
                j,
            ) by {
                if r0 < r {
                } else {
                    assert(coeffs@[8 * r0 + j] == coeffs@[coeffs@.len() - 8 + j]);
                }
            }
        }
        r = r + 1;
    }
    DltSystem { coeffs, rhs }
}

} // verus!
