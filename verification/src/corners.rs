use vstd::prelude::*;

use crate::mask::{dark_at, grid_has_dark, in_grid, Mask};
use crate::CoreError;

verus! {

/// An integer pixel coordinate inside the mask.
#[derive(Clone, Copy, Debug, PartialEq, Eq, Structural)]
pub struct CornerPoint {
    pub x: u32,
    pub y: u32,
}

/// The four located control points, clockwise from the top left.
#[derive(Clone, Copy, Debug, PartialEq, Eq, Structural)]
pub struct Corners {
    pub top_left: CornerPoint,
    pub top_right: CornerPoint,
    pub bottom_right: CornerPoint,
    pub bottom_left: CornerPoint,
}

/// A coordinate seen from the search origin: unchanged, or counted from the
/// far edge when the corresponding flip is set.
pub open spec fn mirror(v: int, extent: int, flip: bool) -> int {
    if flip {
        extent - 1 - v
    } else {
        v
    }
}

/// Squared Euclidean distance from the pixel at (x, y) to the image corner
/// selected by the two flips.
pub open spec fn corner_dist2(w: int, h: int, fx: bool, fy: bool, x: int, y: int) -> int {
    let mx = mirror(x, w, fx);
    let my = mirror(y, h, fy);
    mx * mx + my * my
}

/// Darkness of the pixel whose mirrored coordinates are (a, b).
spec fn dark_m(s: Seq<u8>, w: int, h: int, fx: bool, fy: bool, a: int, b: int) -> bool {
    dark_at(s, w, mirror(a, w, fx), mirror(b, h, fy))
}

spec fn max2(a: int, b: int) -> int {
    if a >= b {
        a
    } else {
        b
    }
}

/// What a corner search returns: nothing exactly when the mask holds no dark
/// pixel, else a dark pixel whose squared distance to the selected corner is
/// minimal over all dark pixels.
pub open spec fn locate_post(
    s: Seq<u8>,
    w: int,
    h: int,
    fx: bool,
    fy: bool,
    r: Option<(u32, u32)>,
) -> bool {
    match r {
        None => !grid_has_dark(s, w, h),
        Some(p) => {
            &&& in_grid(w, h, p.0 as int, p.1 as int)
            &&& dark_at(s, w, p.0 as int, p.1 as int)
            &&& forall|x: int, y: int|
                in_grid(w, h, x, y) && #[trigger] dark_at(s, w, x, y) ==> corner_dist2(
                    w,
                    h,
                    fx,
                    fy,
                    p.0 as int,
                    p.1 as int,
                ) <= corner_dist2(w, h, fx, fy, x, y)
        },
    }
}

/// No dark pixel lies on a ring closer to the corner than `i`.
spec fn no_dark_below(s: Seq<u8>, w: int, h: int, fx: bool, fy: bool, i: int) -> bool {
    forall|a: int, b: int|
        in_grid(w, h, a, b) && max2(a, b) < i ==> !#[trigger] dark_m(s, w, h, fx, fy, a, b)
}

/// `d2` is at most the squared distance of every dark pixel on a ring closer
/// to the corner than `i`.
spec fn min_below(s: Seq<u8>, w: int, h: int, fx: bool, fy: bool, d2: int, i: int) -> bool {
    forall|a: int, b: int|
        in_grid(w, h, a, b) && max2(a, b) < i && #[trigger] dark_m(s, w, h, fx, fy, a, b) ==> d2
            <= a * a + b * b
}

/// How far ring `i`'s row scan reaches: offsets 0 ..= i, cut at the width.
spec fn row_extent(w: int, i: int) -> int {
    if i + 1 <= w {
        i + 1
    } else {
        w
    }
}

/// How far ring `i`'s column scan reaches: offsets 0 .. i, cut at the height.
spec fn col_extent(h: int, i: int) -> int {
    if i <= h {
        i
    } else {
        h
    }
}

/// The scanned prefix of ring `i`'s row holds no dark pixel.
spec fn no_dark_row(s: Seq<u8>, w: int, h: int, fx: bool, fy: bool, i: int, x: int) -> bool {
    forall|a: int| 0 <= a < x && a < w && i < h ==> !#[trigger] dark_m(s, w, h, fx, fy, a, i)
}

spec fn min_row(s: Seq<u8>, w: int, h: int, fx: bool, fy: bool, d2: int, i: int, x: int) -> bool {
    forall|a: int|
        0 <= a < x && a < w && i < h && #[trigger] dark_m(s, w, h, fx, fy, a, i) ==> d2 <= a * a + i
            * i
}

/// The scanned prefix of ring `i`'s column holds no dark pixel.
spec fn no_dark_col(s: Seq<u8>, w: int, h: int, fx: bool, fy: bool, i: int, y: int) -> bool {
    forall|b: int| 0 <= b < y && b < h && i < w ==> !#[trigger] dark_m(s, w, h, fx, fy, i, b)
}

spec fn min_col(s: Seq<u8>, w: int, h: int, fx: bool, fy: bool, d2: int, i: int, y: int) -> bool {
    forall|b: int|
        0 <= b < y && b < h && i < w && #[trigger] dark_m(s, w, h, fx, fy, i, b) ==> d2 <= i * i + b
            * b
}

/// Squares a coordinate without overflowing.
fn sq(v: u32) -> (r: u128)
    ensures
        r == (v as int) * (v as int),
        r <= 0xFFFF_FFFE_0000_0001,
{
    proof {
        assert((v as int) * (v as int) <= 0xFFFF_FFFF * 0xFFFF_FFFF) by (nonlinear_arith)
            requires
                0 <= v as int <= 0xFFFF_FFFF,
        ;
    }
    (v as u128) * (v as u128)
}

impl Mask {
    /// Finds the dark pixel closest (in true squared Euclidean distance) to
    /// the image corner selected by the two flips, searching over rings of
    /// growing Chebyshev radius and stopping once no closer candidate can
    /// exist.  On equal distances the pixel met first in scan order (row
    /// before column within a ring) is kept.
    pub fn find_nearest_to_corner(&self, flip_x: bool, flip_y: bool) -> (r: Option<(u32, u32)>)
        requires
            self.wf(),
        ensures
            locate_post(self.data@, self.width as int, self.height as int, flip_x, flip_y, r),
    {
        let w = self.width;
        let h = self.height;
        let m = if w > h {
            w
        } else {
            h
        };
        let mut found = false;
        let mut bx: u32 = 0;
        let mut by: u32 = 0;
        let mut bd2: u128 = 0;
        let mut i: u32 = 0;
        while i < m && !(found && bd2 < sq(i))
            invariant
                self.wf(),
                w == self.width,
                h == self.height,
                m == max2(w as int, h as int),
                i <= m,
                !found ==> no_dark_below(
                    self.data@,
                    w as int,
                    h as int,
                    flip_x,
                    flip_y,
                    i as int,
                ),
                found ==> {
                    &&& bx < w
                    &&& by < h
                    &&& self.is_dark(bx as int, by as int)
                    &&& bd2 == corner_dist2(w as int, h as int, flip_x, flip_y, bx as int, by as int)
                    &&& min_below(self.data@, w as int, h as int, flip_x, flip_y, bd2 as int, i as int)
                },
            decreases m - i,
        {
            let i2: u128 = sq(i);
            if i < h {
                let real_y = if flip_y {
                    h - 1 - i
                } else {
                    i
                };
                let xe = if i < w {
                    i + 1
                } else {
                    w
                };
                let mut x: u32 = 0;
                while x < xe
                    invariant
                        self.wf(),
                        w == self.width,
                        h == self.height,
                        i < h,
                        xe == row_extent(w as int, i as int),
                        x <= xe,
                        i2 == (i as int) * (i as int),
                        i2 <= 0xFFFF_FFFE_0000_0001,
                        real_y as int == mirror(i as int, h as int, flip_y),
                        !found ==> no_dark_below(
                            self.data@,
                            w as int,
                            h as int,
                            flip_x,
                            flip_y,
                            i as int,
                        ) && no_dark_row(
                            self.data@,
                            w as int,
                            h as int,
                            flip_x,
                            flip_y,
                            i as int,
                            x as int,
                        ),
                        found ==> {
                            &&& bx < w
                            &&& by < h
                            &&& self.is_dark(bx as int, by as int)
                            &&& bd2 == corner_dist2(
                                w as int,
                                h as int,
                                flip_x,
                                flip_y,
                                bx as int,
                                by as int,
                            )
                            &&& min_below(
                                self.data@,
                                w as int,
                                h as int,
                                flip_x,
                                flip_y,
                                bd2 as int,
                                i as int,
                            )
                            &&& min_row(
                                self.data@,
                                w as int,
                                h as int,
                                flip_x,
                                flip_y,
                                bd2 as int,
                                i as int,
                                x as int,
                            )
                        },
                    decreases xe - x,
                {
                    let real_x = if flip_x {
                        w - 1 - x
                    } else {
                        x
                    };
                    proof {
                        assert(real_x as int == mirror(x as int, w as int, flip_x));
                        assert(mirror(real_x as int, w as int, flip_x) == x as int);
                        assert(mirror(real_y as int, h as int, flip_y) == i as int);
                    }
                    if self.get(real_x, real_y) == 0 {
                        let d2: u128 = sq(x) + i2;
                        proof {
                            assert(d2 as int == corner_dist2(
                                w as int,
                                h as int,
                                flip_x,
                                flip_y,
                                real_x as int,
                                real_y as int,
                            ));
                        }
                        if !found || d2 < bd2 {
                            found = true;
                            bx = real_x;
                            by = real_y;
                            bd2 = d2;
                        }
                    }
                    x = x + 1;
                }
            }
            if i < w {
                let real_x = if flip_x {
                    w - 1 - i
                } else {
                    i
                };
                let ye = if i < h {
                    i
                } else {
                    h
                };
                let mut y: u32 = 0;
                while y < ye
                    invariant
                        self.wf(),
                        w == self.width,
                        h == self.height,
                        i < w,
                        i < m,
                        ye == col_extent(h as int, i as int),
                        y <= ye,
                        i2 == (i as int) * (i as int),
                        i2 <= 0xFFFF_FFFE_0000_0001,
                        real_x as int == mirror(i as int, w as int, flip_x),
                        !found ==> no_dark_below(
                            self.data@,
                            w as int,
                            h as int,
                            flip_x,
                            flip_y,
                            i as int,
                        ) && no_dark_row(
                            self.data@,
                            w as int,
                            h as int,
                            flip_x,
                            flip_y,
                            i as int,
                            row_extent(w as int, i as int),
                        ) && no_dark_col(
                            self.data@,
                            w as int,
                            h as int,
                            flip_x,
                            flip_y,
                            i as int,
                            y as int,
                        ),
                        found ==> {
                            &&& bx < w
                            &&& by < h
                            &&& self.is_dark(bx as int, by as int)
                            &&& bd2 == corner_dist2(
                                w as int,
                                h as int,
                                flip_x,
                                flip_y,
                                bx as int,
                                by as int,
                            )
                            &&& min_below(
                                self.data@,
                                w as int,
                                h as int,
                                flip_x,
                                flip_y,
                                bd2 as int,
                                i as int,
                            )
                            &&& min_row(
                                self.data@,
                                w as int,
                                h as int,
                                flip_x,
                                flip_y,
                                bd2 as int,
                                i as int,
                                row_extent(w as int, i as int),
                            )
                            &&& min_col(
                                self.data@,
                                w as int,
                                h as int,
                                flip_x,
                                flip_y,
                                bd2 as int,
                                i as int,
                                y as int,
                            )
                        },
                    decreases ye - y,
                {
                    let real_y = if flip_y {
                        h - 1 - y
                    } else {
                        y
                    };
                    proof {
                        assert(real_y as int == mirror(y as int, h as int, flip_y));
                        assert(mirror(real_y as int, h as int, flip_y) == y as int);
                        assert(mirror(real_x as int, w as int, flip_x) == i as int);
                    }
                    if self.get(real_x, real_y) == 0 {
                        let d2: u128 = i2 + sq(y);
                        proof {
                            assert(d2 as int == corner_dist2(
                                w as int,
                                h as int,
                                flip_x,
                                flip_y,
                                real_x as int,
                                real_y as int,
                            ));
                        }
                        if !found || d2 < bd2 {
                            found = true;
                            bx = real_x;
                            by = real_y;
                            bd2 = d2;
                        }
                    }
                    y = y + 1;
                }
            }
            proof {
                lemma_ring_step(
                    self.data@,
                    w as int,
                    h as int,
                    flip_x,
                    flip_y,
                    found,
                    bd2 as int,
                    i as int,
                );
            }
            i = i + 1;
        }
        if found {
            proof {
                lemma_search_complete(
                    self.data@,
                    w as int,
                    h as int,
                    flip_x,
                    flip_y,
                    bd2 as int,
                    i as int,
                    m as int,
                );
            }
            Some((bx, by))
        } else {
            proof {
                assert forall|x: int, y: int|
                    in_grid(w as int, h as int, x, y) implies !#[trigger] dark_at(
                    self.data@,
                    w as int,
                    x,
                    y,
                ) by {
                    let a = mirror(x, w as int, flip_x);
                    let b = mirror(y, h as int, flip_y);
                    assert(in_grid(w as int, h as int, a, b));
                    assert(max2(a, b) < m as int);
                    assert(!dark_m(self.data@, w as int, h as int, flip_x, flip_y, a, b));
                    assert(mirror(a, w as int, flip_x) == x);
                    assert(mirror(b, h as int, flip_y) == y);
                }
            }
            None
        }
    }
}

/// Joining the covered ring prefixes: once the row and column of ring `i`
/// have been scanned, everything strictly inside ring `i + 1` is covered.
proof fn lemma_ring_step(
    s: Seq<u8>,
    w: int,
    h: int,
    fx: bool,
    fy: bool,
    found: bool,
    bd2: int,
    i: int,
)
    requires
        0 <= i,
        !found ==> no_dark_below(s, w, h, fx, fy, i) && no_dark_row(
            s,
            w,
            h,
            fx,
            fy,
            i,
            row_extent(w, i),
        ) && no_dark_col(s, w, h, fx, fy, i, col_extent(h, i)),
        found ==> min_below(s, w, h, fx, fy, bd2, i) && min_row(
            s,
            w,
            h,
            fx,
            fy,
            bd2,
            i,
            row_extent(w, i),
        ) && min_col(s, w, h, fx, fy, bd2, i, col_extent(h, i)),
    ensures
        !found ==> no_dark_below(s, w, h, fx, fy, i + 1),
        found ==> min_below(s, w, h, fx, fy, bd2, i + 1),
{
    if found {
        assert forall|a: int, b: int|
            in_grid(w, h, a, b) && max2(a, b) < i + 1 && #[trigger] dark_m(
                s,
                w,
                h,
                fx,
                fy,
                a,
                b,
            ) implies bd2 <= a * a + b * b by {
            if max2(a, b) < i {
            } else if b == i {
            } else {
                assert(a == i && b < i);
            }
        }
    } else {
        assert forall|a: int, b: int|
            in_grid(w, h, a, b) && max2(a, b) < i + 1 implies !#[trigger] dark_m(
            s,
            w,
            h,
            fx,
            fy,
            a,
            b,
        ) by {
            if max2(a, b) < i {
            } else if b == i {
            } else {
                assert(a == i && b < i);
            }
        }
    }
}

/// When the search stops, the best candidate is at least as close to the
/// corner as every dark pixel: pixels on rings not yet scanned are at least
/// the ring's radius away.
proof fn lemma_search_complete(
    s: Seq<u8>,
    w: int,
    h: int,
    fx: bool,
    fy: bool,
    bd2: int,
    i: int,
    m: int,
)
    requires
        m == max2(w, h),
        0 <= i,
        min_below(s, w, h, fx, fy, bd2, i),
        i == m || bd2 < i * i,
    ensures
        forall|x: int, y: int|
            in_grid(w, h, x, y) && #[trigger] dark_at(s, w, x, y) ==> bd2 <= corner_dist2(
                w,
                h,
                fx,
                fy,
                x,
                y,
            ),
{
    assert forall|x: int, y: int|
        in_grid(w, h, x, y) && #[trigger] dark_at(s, w, x, y) implies bd2 <= corner_dist2(
        w,
        h,
        fx,
        fy,
        x,
        y,
    ) by {
        let a = mirror(x, w, fx);
        let b = mirror(y, h, fy);
        assert(in_grid(w, h, a, b));
        assert(mirror(a, w, fx) == x);
        assert(mirror(b, h, fy) == y);
        assert(dark_m(s, w, h, fx, fy, a, b));
        if max2(a, b) < i {
            assert(bd2 <= a * a + b * b);
        } else {
            let r = max2(a, b);
            assert(i <= r);
            assert(i * i <= r * r) by (nonlinear_arith)
                requires
                    0 <= i <= r,
            ;
            assert(r * r <= a * a + b * b) by (nonlinear_arith)
                requires
                    r == max2(a, b),
                    0 <= a,
                    0 <= b,
            ;
            assert(i < m);
            assert(bd2 < i * i);
        }
        assert(corner_dist2(w, h, fx, fy, x, y) == a * a + b * b);
    }
}

/// Runs the corner search once per corner selector.  It fails exactly when
/// the mask holds no dark pixel at all; otherwise each returned point is a
/// dark pixel closest to its corner.
pub open spec fn corners_located(s: Seq<u8>, w: int, h: int, c: Corners) -> bool {
    &&& locate_post(s, w, h, false, false, Some((c.top_left.x, c.top_left.y)))
    &&& locate_post(s, w, h, true, false, Some((c.top_right.x, c.top_right.y)))
    &&& locate_post(s, w, h, true, true, Some((c.bottom_right.x, c.bottom_right.y)))
    &&& locate_post(s, w, h, false, true, Some((c.bottom_left.x, c.bottom_left.y)))
}

impl Mask {
    /// Locates the four control points, clockwise from the top left.
    pub fn locate_corners(&self) -> (r: Result<Corners, CoreError>)
        requires
            self.wf(),
        ensures
            r matches Ok(c) ==> corners_located(
                self.data@,
                self.width as int,
                self.height as int,
                c,
            ),
            r is Ok <==> self.has_dark(),
            r matches Err(e) ==> e == CoreError::UnusableImage,
    {
        let tl = self.find_nearest_to_corner(false, false);
        let tr = self.find_nearest_to_corner(true, false);
        let br = self.find_nearest_to_corner(true, true);
        let bl = self.find_nearest_to_corner(false, true);
        match (tl, tr, br, bl) {
            (Some(p0), Some(p1), Some(p2), Some(p3)) => Ok(
                Corners {
                    top_left: CornerPoint { x: p0.0, y: p0.1 },
                    top_right: CornerPoint { x: p1.0, y: p1.1 },
                    bottom_right: CornerPoint { x: p2.0, y: p2.1 },
                    bottom_left: CornerPoint { x: p3.0, y: p3.1 },
                },
            ),
            _ => Err(CoreError::UnusableImage),
        }
    }
}

/// On a mask with no dark pixel, every corner selector returns nothing.
pub proof fn lemma_all_light_locates_nothing(
    s: Seq<u8>,
    w: int,
    h: int,
    fx: bool,
    fy: bool,
    r: Option<(u32, u32)>,
)
    requires
        locate_post(s, w, h, fx, fy, r),
        forall|x: int, y: int| in_grid(w, h, x, y) ==> !#[trigger] dark_at(s, w, x, y),
    ensures
        r is None,
{
    if r is Some {
        let p = r->Some_0;
        assert(dark_at(s, w, p.0 as int, p.1 as int));
    }
}

/// On a mask whose only dark pixel is (px, py), every corner selector
/// returns exactly that pixel.
pub proof fn lemma_single_dark_pixel(
    s: Seq<u8>,
    w: int,
    h: int,
    fx: bool,
    fy: bool,
    r: Option<(u32, u32)>,
    px: u32,
    py: u32,
)
    requires
        locate_post(s, w, h, fx, fy, r),
        in_grid(w, h, px as int, py as int),
        dark_at(s, w, px as int, py as int),
        forall|x: int, y: int|
            in_grid(w, h, x, y) && #[trigger] dark_at(s, w, x, y) ==> x == px as int && y
                == py as int,
    ensures
        r == Some((px, py)),
{
    assert(grid_has_dark(s, w, h));
    let p = r->Some_0;
    assert(p.0 as int == px as int && p.1 as int == py as int);
}

/// On a mask whose only dark pixel is (px, py), the located control points
/// all coincide with that pixel.
pub proof fn lemma_single_dark_pixel_corners(
    s: Seq<u8>,
    w: int,
    h: int,
    c: Corners,
    px: u32,
    py: u32,
)
    requires
        corners_located(s, w, h, c),
        in_grid(w, h, px as int, py as int),
        dark_at(s, w, px as int, py as int),
        forall|x: int, y: int|
            in_grid(w, h, x, y) && #[trigger] dark_at(s, w, x, y) ==> x == px as int && y
                == py as int,
    ensures
        c.top_left == (CornerPoint { x: px, y: py }),
        c.top_right == (CornerPoint { x: px, y: py }),
        c.bottom_right == (CornerPoint { x: px, y: py }),
        c.bottom_left == (CornerPoint { x: px, y: py }),
{
    lemma_single_dark_pixel(s, w, h, false, false, Some((c.top_left.x, c.top_left.y)), px, py);
    lemma_single_dark_pixel(s, w, h, true, false, Some((c.top_right.x, c.top_right.y)), px, py);
    lemma_single_dark_pixel(s, w, h, true, true, Some((c.bottom_right.x, c.bottom_right.y)), px, py);
    lemma_single_dark_pixel(s, w, h, false, true, Some((c.bottom_left.x, c.bottom_left.y)), px, py);
}

} // verus!
