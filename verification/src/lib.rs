//! Interactive crop-selection engine for raster images.
//!
//! The library covers the logic of a click-and-drag image cropper: the
//! coordinate transform between image pixel space and a letterboxed display
//! viewport, the selection state machine fed by pointer events, the
//! synchronization between the crop rectangle and four numeric text fields,
//! and the extraction and channel conversion of the selected sub-raster for
//! export.  All coordinates are exact rationals, so every mapping identity is
//! proved without rounding slop; windowing, widgets, image decoding and file
//! output live outside the library.

pub mod basicrop_state;
pub mod counter_input;
pub mod export;
pub mod field_sync;
pub mod frac;
pub mod image_crop;
pub mod mapper;
pub mod misc;
pub mod selection;
