//! Synchronization between the crop rectangle and the four numeric fields.
//!
//! Each field independently proposes one component of the rectangle.  An
//! edit is applied only when the rectangle is already defined, the text
//! parses as an unsigned integer, and the value differs from the field's
//! current contribution (the truncated component) — the last guard is what
//! keeps a rectangle-to-field update from echoing back as a
//! field-to-rectangle update.  Unparseable text changes nothing.

use vstd::prelude::*;

use crate::counter_input::parse_u32;
use crate::counter_input::parse_u32_spec;
use crate::frac::Frac;
use crate::frac::rat_eq;
use crate::frac::rat_floor_u32;
use crate::frac::rat_of_int;
use crate::image_crop::ImageCrop;

verus! {

/// Which of the four numeric fields an edit comes from.
#[derive(Clone, Copy, Debug, PartialEq, Eq, Structural)]
pub enum CropField {
    X,
    Y,
    Width,
    Height,
}

/// The component of a defined rectangle a field contributes to.
pub open spec fn component_of(rect: ImageCrop, field: CropField) -> Frac {
    match rect {
        ImageCrop::Cropped { crop_x, crop_y, width, height } => match field {
            CropField::X => crop_x,
            CropField::Y => crop_y,
            CropField::Width => width,
            CropField::Height => height,
        },
        ImageCrop::Uninitialized => Frac { num: 0, den: 1 },
    }
}

/// A defined rectangle with one component replaced and the rest kept.
pub open spec fn with_component(rect: ImageCrop, field: CropField, v: Frac) -> ImageCrop {
    match rect {
        ImageCrop::Cropped { crop_x, crop_y, width, height } => match field {
            CropField::X => ImageCrop::Cropped { crop_x: v, crop_y, width, height },
            CropField::Y => ImageCrop::Cropped { crop_x, crop_y: v, width, height },
            CropField::Width => ImageCrop::Cropped { crop_x, crop_y, width: v, height },
            CropField::Height => ImageCrop::Cropped { crop_x, crop_y, width, height: v },
        },
        ImageCrop::Uninitialized => rect,
    }
}

/// Apply one field edit to the rectangle.  The result is the (possibly
/// unchanged) rectangle and whether it was changed.  The rectangle is left
/// exactly as it was when it is not yet defined, when the text does not
/// parse as an unsigned integer, or when the parsed value equals the
/// field's current contribution.
pub fn apply_field_edit(rect: ImageCrop, field: CropField, text: &[u8]) -> (out: (ImageCrop, bool))
    requires
        rect.wf(),
    ensures
        out.0.wf(),
        rect.bounded() ==> out.0.bounded(),
        rect is Uninitialized ==> out.0 == rect && !out.1,
        parse_u32_spec(text@) is None ==> out.0 == rect && !out.1,
        rect is Cropped ==> (parse_u32_spec(text@) matches Some(v) ==> {
            if v as int == rat_floor_u32(component_of(rect, field)@) {
                &&& out.0 == rect
                &&& !out.1
            } else {
                &&& out.0 == with_component(rect, field, Frac { num: v as u64, den: 1 })
                &&& out.1
            }
        }),
{
    match parse_u32(text) {
        None => (rect, false),
        Some(v) => {
            match rect {
                ImageCrop::Uninitialized => (rect, false),
                ImageCrop::Cropped { crop_x, crop_y, width, height } => {
                    let comp = match field {
                        CropField::X => crop_x,
                        CropField::Y => crop_y,
                        CropField::Width => width,
                        CropField::Height => height,
                    };
                    if comp.trunc_u32() == v {
                        (rect, false)
                    } else {
                        let nf = Frac { num: v as u64, den: 1 };
                        let updated = match field {
                            CropField::X => ImageCrop::Cropped {
                                crop_x: nf,
                                crop_y,
                                width,
                                height,
                            },
                            CropField::Y => ImageCrop::Cropped {
                                crop_x,
                                crop_y: nf,
                                width,
                                height,
                            },
                            CropField::Width => ImageCrop::Cropped {
                                crop_x,
                                crop_y,
                                width: nf,
                                height,
                            },
                            CropField::Height => ImageCrop::Cropped {
                                crop_x,
                                crop_y,
                                width,
                                height: nf,
                            },
                        };
                        (updated, true)
                    }
                },
            }
        },
    }
}

/// The full-image rectangle: for any image dimensions, resetting yields the
/// defined rectangle `{0, 0, image_w, image_h}`.
pub fn reset_rect(image_w: u32, image_h: u32) -> (r: ImageCrop)
    ensures
        r == (ImageCrop::Cropped {
            crop_x: Frac { num: 0, den: 1 },
            crop_y: Frac { num: 0, den: 1 },
            width: Frac { num: image_w as u64, den: 1 },
            height: Frac { num: image_h as u64, den: 1 },
        }),
        r.wf(),
        r.bounded(),
        (r matches ImageCrop::Cropped { crop_x, crop_y, width, height } ==> {
            &&& rat_eq(crop_x@, rat_of_int(0))
            &&& rat_eq(crop_y@, rat_of_int(0))
            &&& rat_eq(width@, rat_of_int(image_w as int))
            &&& rat_eq(height@, rat_of_int(image_h as int))
        }),
{
    ImageCrop::Cropped {
        crop_x: Frac { num: 0, den: 1 },
        crop_y: Frac { num: 0, den: 1 },
        width: Frac { num: image_w as u64, den: 1 },
        height: Frac { num: image_h as u64, den: 1 },
    }
}

/// The four field values for a rectangle: each component truncated to an
/// unsigned integer, or `None` while no rectangle is defined.
pub fn rect_field_values(rect: &ImageCrop) -> (r: Option<(u32, u32, u32, u32)>)
    requires
        rect.wf(),
    ensures
        match *rect {
            ImageCrop::Cropped { crop_x, crop_y, width, height } => {
                &&& r matches Some(t)
                &&& t.0 as int == rat_floor_u32(crop_x@)
                &&& t.1 as int == rat_floor_u32(crop_y@)
                &&& t.2 as int == rat_floor_u32(width@)
                &&& t.3 as int == rat_floor_u32(height@)
            },
            ImageCrop::Uninitialized => r is None,
        },
{
    match rect {
        ImageCrop::Cropped { crop_x, crop_y, width, height } => Some(
            (crop_x.trunc_u32(), crop_y.trunc_u32(), width.trunc_u32(), height.trunc_u32()),
        ),
        ImageCrop::Uninitialized => None,
    }
}

} // verus!
