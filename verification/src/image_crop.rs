//! The crop rectangle: the one authoritative selection state, in image-pixel
//! coordinates.
//!
//! The rectangle starts `Uninitialized` (no image dimensions known yet) and
//! becomes `Cropped` once the image loads.  Its four components are exact
//! fractions; `x + width` and `y + height` may exceed the image bounds while
//! the user edits, and are clamped by the exporter.

use vstd::prelude::*;

use crate::frac::Frac;
use crate::frac::rat_eq;
use crate::frac::rat_floor_u32;
use crate::misc::RasterImage;

verus! {

/// The authoritative crop selection.
#[derive(Clone, Copy, Debug)]
pub enum ImageCrop {
    Cropped { crop_x: Frac, crop_y: Frac, width: Frac, height: Frac },
    Uninitialized,
}

/// A defined crop rectangle with the four components unpacked.
#[derive(Clone, Copy, Debug)]
pub struct InitializedImageCrop {
    pub crop_x: Frac,
    pub crop_y: Frac,
    pub width: Frac,
    pub height: Frac,
}

/// Integer pixel bounds for the exporter, truncated from the exact
/// rectangle.
#[derive(Clone, Copy, Debug, PartialEq, Eq, Structural)]
pub struct FinalizedImageCrop {
    pub crop_x: u32,
    pub crop_y: u32,
    pub width: u32,
    pub height: u32,
}

/// Value equality of two crop selections: `Uninitialized` equals only
/// itself, and defined rectangles compare component by component as
/// rationals.
pub open spec fn crop_eq(a: ImageCrop, b: ImageCrop) -> bool {
    match (a, b) {
        (ImageCrop::Uninitialized, ImageCrop::Uninitialized) => true,
        (
            ImageCrop::Cropped { crop_x, crop_y, width, height },
            ImageCrop::Cropped {
                crop_x: b_crop_x,
                crop_y: b_crop_y,
                width: b_width,
                height: b_height,
            },
        ) => {
            &&& rat_eq(crop_x@, b_crop_x@)
            &&& rat_eq(crop_y@, b_crop_y@)
            &&& rat_eq(width@, b_width@)
            &&& rat_eq(height@, b_height@)
        },
        _ => false,
    }
}

impl ImageCrop {
    /// All components are well-formed fractions (widths are non-negative by
    /// construction, since fractions are non-negative).
    pub open spec fn wf(self) -> bool {
        match self {
            ImageCrop::Cropped { crop_x, crop_y, width, height } => {
                &&& crop_x.wf()
                &&& crop_y.wf()
                &&& width.wf()
                &&& height.wf()
            },
            ImageCrop::Uninitialized => true,
        }
    }

    /// The components are small enough for the mapper to forward-map them:
    /// every rectangle the library produces satisfies this.
    pub open spec fn bounded(self) -> bool {
        match self {
            ImageCrop::Cropped { crop_x, crop_y, width, height } => {
                &&& crop_x.num <= 0x2_0000_0000 && crop_x.den <= 0x2_0000
                &&& crop_y.num <= 0x2_0000_0000 && crop_y.den <= 0x2_0000
                &&& width.num <= 0x2_0000_0000 && width.den <= 0x2_0000
                &&& height.num <= 0x2_0000_0000 && height.den <= 0x2_0000
            },
            ImageCrop::Uninitialized => true,
        }
    }

    /// Integer pixel bounds by truncation, for the exporter; `None` while no
    /// rectangle is defined.
    pub fn to_final(&self) -> (r: Option<FinalizedImageCrop>)
        requires
            self.wf(),
        ensures
            match *self {
                ImageCrop::Cropped { crop_x, crop_y, width, height } => {
                    &&& r matches Some(f)
                    &&& f.crop_x as int == rat_floor_u32(crop_x@)
                    &&& f.crop_y as int == rat_floor_u32(crop_y@)
                    &&& f.width as int == rat_floor_u32(width@)
                    &&& f.height as int == rat_floor_u32(height@)
                },
                ImageCrop::Uninitialized => r is None,
            },
    {
        match self {
            ImageCrop::Cropped { crop_x, crop_y, width, height } => Some(
                FinalizedImageCrop {
                    crop_x: crop_x.trunc_u32(),
                    crop_y: crop_y.trunc_u32(),
                    width: width.trunc_u32(),
                    height: height.trunc_u32(),
                },
            ),
            ImageCrop::Uninitialized => None,
        }
    }

    /// The four components unpacked, for callers that need a defined
    /// rectangle; `None` while no rectangle is defined.
    pub fn to_initialized(&self) -> (r: Option<InitializedImageCrop>)
        ensures
            match *self {
                ImageCrop::Cropped { crop_x, crop_y, width, height } => r == Some(
                    InitializedImageCrop { crop_x, crop_y, width, height },
                ),
                ImageCrop::Uninitialized => r is None,
            },
    {
        match self {
            ImageCrop::Cropped { crop_x, crop_y, width, height } => Some(
                InitializedImageCrop {
                    crop_x: *crop_x,
                    crop_y: *crop_y,
                    width: *width,
                    height: *height,
                },
            ),
            ImageCrop::Uninitialized => None,
        }
    }
}

impl PartialEq for ImageCrop {
    /// Selections compare by value: `Uninitialized` equals only itself, and
    /// defined rectangles compare their components as rationals.
    fn eq(&self, rhs: &ImageCrop) -> (r: bool) {
        match (self, rhs) {
            (ImageCrop::Uninitialized, ImageCrop::Uninitialized) => true,
            (ImageCrop::Uninitialized, _) => false,
            (_, ImageCrop::Uninitialized) => false,
            (
                ImageCrop::Cropped { crop_x, crop_y, width, height },
                ImageCrop::Cropped {
                    crop_x: rhs_crop_x,
                    crop_y: rhs_crop_y,
                    width: rhs_width,
                    height: rhs_height,
                },
            ) => {
                crop_x == rhs_crop_x && crop_y == rhs_crop_y && width == rhs_width && height
                    == rhs_height
            },
        }
    }
}

impl vstd::std_specs::cmp::PartialEqSpecImpl for ImageCrop {
    open spec fn obeys_eq_spec() -> bool {
        true
    }

    open spec fn eq_spec(&self, rhs: &ImageCrop) -> bool {
        crop_eq(*self, *rhs)
    }
}

/// Shared application state around the selection: the live rectangle, the
/// rectangle captured at initialization (to detect a no-op confirm), the
/// decoded image and the destination path.
pub struct CroppingState {
    pub image_crop: Option<ImageCrop>,
    pub image_initial: Option<ImageCrop>,
    pub image: Option<RasterImage>,
    pub dest_path: Vec<u8>,
}

} // verus!
