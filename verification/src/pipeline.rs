use vstd::prelude::*;

use crate::corners::{corners_located, Corners};
use crate::dlt::{dlt_matches, dlt_system, DltSystem};
use crate::geometry::{degenerate, is_degenerate};
use crate::mask::{binarize, dark_at, grid_has_dark, mask_model, GrayGrid};
use crate::policy::{content_spans, policy_dims, raw_height, raw_width, size_policy, Dims};
use crate::CoreError;

verus! {

/// Everything a job derives from its grayscale view before the
/// floating-point solve: the located control points, the output dimensions,
/// and the integer system whose least-squares solution is the projection.
pub struct Plan {
    pub corners: Corners,
    pub dims: Dims,
    pub system: DltSystem,
}

/// What `analyze` guarantees of its result.
pub open spec fn analyze_post(gray: GrayGrid, r: Result<Plan, CoreError>) -> bool {
    let m = mask_model(gray);
    let w = gray.width as int;
    let h = gray.height as int;
    &&& ((r matches Err(e) && e == CoreError::UnusableImage) <==> !grid_has_dark(m, w, h))
    &&& (r matches Ok(p) ==> {
        &&& corners_located(m, w, h, p.corners)
        &&& raw_width(p.corners) >= 1
        &&& raw_height(p.corners) >= 1
        &&& (p.dims.width as int, p.dims.height as int) == policy_dims(
            raw_width(p.corners),
            raw_height(p.corners),
        )
        &&& 1 <= p.dims.width <= crate::policy::MAX_OUTPUT_WIDTH
        &&& 1 <= p.dims.height <= crate::policy::MAX_OUTPUT_HEIGHT
        &&& !degenerate(p.corners)
        &&& dlt_matches(p.system, p.corners, p.dims)
    })
    &&& (r matches Err(e) && e == CoreError::InvalidGeometry ==> exists|c: Corners|
        #[trigger] corners_located(m, w, h, c) && (raw_width(c) == 0 || raw_height(c) == 0))
    &&& (r matches Err(e) && e == CoreError::DegenerateGeometry ==> exists|c: Corners|
        #[trigger] corners_located(m, w, h, c) && degenerate(c))
}

/// Runs the exact stages of one job: binarize the grayscale view, locate
/// the four control points, derive the output dimensions, reject degenerate
/// control points, and build the direct-linear-transform system.
///
/// The pixel-count bound is inherited from the binarizer; zero-area images
/// are the caller's defensive check.
pub fn analyze(gray: &GrayGrid) -> (r: Result<Plan, CoreError>)
    requires
        gray.wf(),
        gray.width >= 1,
        gray.height >= 1,
        510 * (gray.width as int) * (gray.height as int) <= u32::MAX,
    ensures
        analyze_post(*gray, r),
{
    let mask = binarize(gray);
    let corners = match mask.locate_corners() {
        Ok(c) => c,
        Err(e) => {
            return Err(e);
        },
    };
    let (rw, rh) = content_spans(&corners);
    let dims = match size_policy(rw, rh) {
        Ok(d) => d,
        Err(e) => {
            proof {
                assert(corners_located(
                    mask.data@,
                    gray.width as int,
                    gray.height as int,
                    corners,
                ) && (raw_width(corners) == 0 || raw_height(corners) == 0));
            }
            return Err(e);
        },
    };
    if is_degenerate(&corners) {
        proof {
            assert(corners_located(mask.data@, gray.width as int, gray.height as int, corners)
                && degenerate(corners));
        }
        return Err(CoreError::DegenerateGeometry);
    }
    let system = dlt_system(&corners, &dims);
    Ok(Plan { corners, dims, system })
}

/// Degenerate control points always fail with the degeneracy error: when
/// the mask admits a located corner assignment, every such assignment is
/// collinear-degenerate, and every such assignment has positive content
/// spans (else the size policy rejects it first), the pipeline returns
/// exactly the degeneracy error — never a projection system.
pub proof fn lemma_degenerate_corners_always_fail(gray: GrayGrid, r: Result<Plan, CoreError>)
    requires
        analyze_post(gray, r),
        exists|c: Corners|
            #[trigger] corners_located(
                mask_model(gray),
                gray.width as int,
                gray.height as int,
                c,
            ),
        forall|c: Corners|
            #[trigger] corners_located(mask_model(gray), gray.width as int, gray.height as int, c)
                ==> degenerate(c),
        forall|c: Corners|
            #[trigger] corners_located(mask_model(gray), gray.width as int, gray.height as int, c)
                ==> raw_width(c) >= 1 && raw_height(c) >= 1,
    ensures
        r matches Err(e) && e == CoreError::DegenerateGeometry,
{
    let m = mask_model(gray);
    let w = gray.width as int;
    let h = gray.height as int;
    let c0 = choose|c: Corners| #[trigger] corners_located(m, w, h, c);
    assert(dark_at(m, w, c0.top_left.x as int, c0.top_left.y as int));
    assert(grid_has_dark(m, w, h));
    if r is Ok {
        let p = r->Ok_0;
        assert(degenerate(p.corners));
    }
}

} // verus!
