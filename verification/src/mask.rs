use vstd::prelude::*;

verus! {

/// Radius of the square neighborhood used by the adaptive threshold.
pub const BLOCK_RADIUS: u32 = 2;

/// Offset subtracted from the neighborhood mean before comparing a pixel to it.
pub const THRESHOLD_DELTA: i32 = 0;

/// A single-channel grayscale pixel grid, one byte per pixel in row-major order.
pub struct GrayGrid {
    pub width: u32,
    pub height: u32,
    pub data: Vec<u8>,
}

impl GrayGrid {
    pub open spec fn wf(self) -> bool {
        self.data@.len() == self.width * self.height
    }
}

/// A two-level pixel grid of the same shape as the grayscale view it was
/// derived from; a byte of 0 marks a dark (content) pixel, anything else is
/// light (background).
pub struct Mask {
    pub width: u32,
    pub height: u32,
    pub data: Vec<u8>,
}

pub open spec fn in_grid(w: int, h: int, x: int, y: int) -> bool {
    0 <= x < w && 0 <= y < h
}

pub open spec fn dark_at(s: Seq<u8>, w: int, x: int, y: int) -> bool {
    s[y * w + x] == 0
}

pub open spec fn grid_has_dark(s: Seq<u8>, w: int, h: int) -> bool {
    exists|x: int, y: int| in_grid(w, h, x, y) && #[trigger] dark_at(s, w, x, y)
}

impl Mask {
    pub open spec fn wf(self) -> bool {
        self.data@.len() == self.width * self.height
    }

    pub open spec fn in_bounds(self, x: int, y: int) -> bool {
        in_grid(self.width as int, self.height as int, x, y)
    }

    pub open spec fn is_dark(self, x: int, y: int) -> bool {
        dark_at(self.data@, self.width as int, x, y)
    }

    pub open spec fn has_dark(self) -> bool {
        grid_has_dark(self.data@, self.width as int, self.height as int)
    }

    /// Reads the mask level at a pixel.
    pub fn get(&self, x: u32, y: u32) -> (r: u8)
        requires
            self.wf(),
            x < self.width,
            y < self.height,
        ensures
            r == self.data@[y * self.width + x],
    {
        let n = self.data.len();
        proof {
            assert((y as int) * (self.width as int) + (x as int) < (self.height as int) * (
            self.width as int)) by (nonlinear_arith)
                requires
                    (x as int) < (self.width as int),
                    (y as int) < (self.height as int),
                    0 <= (x as int),
                    0 <= (y as int),
            ;
            assert((self.height as int) * (self.width as int) == (self.width as int) * (
            self.height as int)) by (nonlinear_arith);
        }
        self.data[(y as usize) * (self.width as usize) + (x as usize)]
    }
}

/// The mask that the adaptive threshold derives from a grayscale grid; the
/// result depends on the pixel bytes, the dimensions, the block radius and the
/// delta alone.
pub uninterp spec fn adaptive_mask(
    pixels: Seq<u8>,
    width: int,
    height: int,
    radius: int,
    delta: int,
) -> Seq<u8>;

/// Relies on imageproc::contrast::adaptive_threshold: each output pixel is 255
/// when the input pixel is at least the mean of the square block of the given
/// radius around it minus delta, else 0; the output has the input's
/// dimensions, and the result is a function of the arguments alone.
///
/// The bounds keep its 32-bit arithmetic inside range: block sums are read
/// from a u32 integral image as (a + b) - c - d, where a + b reaches twice
/// the total intensity, so twice 255·width·height must fit; the block bounds
/// add the radius to a coordinate; and the mean-minus-delta comparison runs
/// in i32.
#[verifier::external_body]
fn adaptive_threshold_call(img: &GrayGrid, radius: u32, delta: i32) -> (r: Mask)
    requires
        img.wf(),
        img.width >= 1,
        img.height >= 1,
        1 <= radius <= 0xFFFF,
        0 <= delta <= 255,
        510 * (img.width as int) * (img.height as int) <= u32::MAX,
    ensures
        r.width == img.width,
        r.height == img.height,
        r.wf(),
        forall|k: int| 0 <= k < r.data@.len() ==> r.data@[k] == 0 || r.data@[k] == 255,
        r.data@ == adaptive_mask(
            img.data@,
            img.width as int,
            img.height as int,
            radius as int,
            delta as int,
        ),
{
    let gray = image::GrayImage::from_raw(img.width, img.height, img.data.clone()).unwrap();
    let out = imageproc::contrast::adaptive_threshold(&gray, radius, delta);
    Mask { width: img.width, height: img.height, data: out.into_raw() }
}

/// The mask bytes that `binarize` derives from a grayscale grid.
pub open spec fn mask_model(g: GrayGrid) -> Seq<u8> {
    adaptive_mask(
        g.data@,
        g.width as int,
        g.height as int,
        BLOCK_RADIUS as int,
        THRESHOLD_DELTA as int,
    )
}

/// Classifies every pixel of a grayscale grid as dark or light against the
/// mean of its local neighborhood.
///
/// The pixel-count bound keeps the thresholder's 32-bit block sums, read
/// from an integral image as a four-term alternating sum, inside range.
pub fn binarize(img: &GrayGrid) -> (r: Mask)
    requires
        img.wf(),
        img.width >= 1,
        img.height >= 1,
        510 * (img.width as int) * (img.height as int) <= u32::MAX,
    ensures
        r.width == img.width,
        r.height == img.height,
        r.wf(),
        forall|k: int| 0 <= k < r.data@.len() ==> r.data@[k] == 0 || r.data@[k] == 255,
        r.data@ == mask_model(*img),
{
    adaptive_threshold_call(img, BLOCK_RADIUS, THRESHOLD_DELTA)
}

} // verus!
