use vstd::prelude::*;

use crate::policy::Dims;
use imageproc::geometric_transformations::Projection;

verus! {

/// The planar projective transform produced by the least-squares solve;
/// opaque here, it is only carried into the resampler.
#[verifier::external_type_specification]
#[verifier::external_body]
pub struct ExProjection(Projection);

/// An RGB pixel grid, three bytes per pixel in row-major order.
pub struct RgbGrid {
    pub width: u32,
    pub height: u32,
    pub data: Vec<u8>,
}

impl RgbGrid {
    pub open spec fn wf(self) -> bool {
        self.data@.len() == 3 * self.width * self.height
    }
}

/// The pixel bytes that the resampler derives for output dimensions (w, h)
/// from a source grid and a projection; the result depends on the source
/// bytes, the source dimensions, the projection and the output dimensions
/// alone.
pub uninterp spec fn warp_model(
    src: Seq<u8>,
    src_w: int,
    src_h: int,
    proj: Projection,
    w: int,
    h: int,
) -> Seq<u8>;

/// Relies on imageproc::geometric_transformations::warp_into: fills an output
/// buffer of the requested dimensions by sampling the source through the
/// inverse projection with bicubic interpolation, black outside the source
/// bounds; the result is a function of the arguments alone.
#[verifier::external_body]
fn warp_call(src: &RgbGrid, proj: &Projection, width: u32, height: u32) -> (r: RgbGrid)
    requires
        src.wf(),
        3 * width * height <= usize::MAX,
    ensures
        r.width == width,
        r.height == height,
        r.wf(),
        r.data@ == warp_model(
            src.data@,
            src.width as int,
            src.height as int,
            *proj,
            width as int,
            height as int,
        ),
{
    let img = image::RgbImage::from_raw(src.width, src.height, src.data.clone()).unwrap();
    let mut out = image::RgbImage::new(width, height);
    imageproc::geometric_transformations::warp_into(
        &img,
        *proj,
        imageproc::geometric_transformations::Interpolation::Bicubic,
        imageproc::geometric_transformations::Border::Constant(image::Rgb([0, 0, 0])),
        &mut out,
    );
    RgbGrid { width, height, data: out.into_raw() }
}

/// Resamples the source image through the projection: every output pixel
/// (x, y) is the bicubic sample of the source at projection⁻¹(x, y), or black
/// where that coordinate falls outside the source.
pub fn warp(src: &RgbGrid, proj: &Projection, dims: Dims) -> (r: RgbGrid)
    requires
        src.wf(),
        3 * dims.width * dims.height <= usize::MAX,
    ensures
        r.width == dims.width,
        r.height == dims.height,
        r.wf(),
        r.data@ == warp_model(
            src.data@,
            src.width as int,
            src.height as int,
            *proj,
            dims.width as int,
            dims.height as int,
        ),
{
    warp_call(src, proj, dims.width, dims.height)
}

} // verus!
