//! Small shared types: the decoded raster, the loader tri-state and the two
//! flavours of pointer position the canvas receives.

use vstd::prelude::*;

use crate::mapper::MAX_DIM;

verus! {

/// A decoded image held as plain values: pixel dimensions and the raw
/// row-major raster, four bytes per pixel.
pub struct RasterImage {
    pub width: u32,
    pub height: u32,
    pub data: Vec<u8>,
}

impl RasterImage {
    /// The raster holds exactly four bytes for every pixel and the
    /// dimensions are positive and bounded.
    pub open spec fn wf(self) -> bool {
        &&& 1 <= self.width <= MAX_DIM
        &&& 1 <= self.height <= MAX_DIM
        &&& self.data.len() == 4 * (self.width as int) * (self.height as int)
    }
}

/// What the image loader has produced so far: a ready image, a decode
/// failure, or nothing yet.
pub enum LoadingImage {
    Image(RasterImage),
    Failed,
    Loading,
}

impl LoadingImage {
    /// The decoded image, if loading has succeeded.
    pub fn get_image(&self) -> (r: Option<&RasterImage>)
        ensures
            match *self {
                LoadingImage::Image(img) => r matches Some(i) && *i == img,
                _ => r is None,
            },
    {
        match self {
            LoadingImage::Image(image) => Some(image),
            _ => None,
        }
    }
}

/// A pointer position reported by the canvas.  A drag-start position is
/// local to the canvas element; a drag-move position is already absolute in
/// viewport coordinates.
pub enum CroppingMousePosition {
    Initial((u32, u32)),
    Moved((u32, u32)),
}

impl CroppingMousePosition {
    /// Resolve to an absolute viewport position, adding the canvas origin to
    /// a canvas-local drag-start position.
    pub fn resolve(&self, origin_x: u32, origin_y: u32) -> (r: (u32, u32))
        requires
            (*self matches CroppingMousePosition::Initial(p) ==> p.0 + origin_x <= u32::MAX
                && p.1 + origin_y <= u32::MAX),
        ensures
            match *self {
                CroppingMousePosition::Initial(p) => r.0 == p.0 + origin_x && r.1 == p.1
                    + origin_y,
                CroppingMousePosition::Moved(p) => r == p,
            },
    {
        match self {
            CroppingMousePosition::Initial(p) => (p.0 + origin_x, p.1 + origin_y),
            CroppingMousePosition::Moved(p) => *p,
        }
    }
}

} // verus!
