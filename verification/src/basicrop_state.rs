//! The interaction controller: one owner for the canonical selection state.
//!
//! All mutation goes through the methods here, synchronously, in the order
//! the events arrive: pointer events drive the Idle/Selecting state machine,
//! field edits and the reset command rewrite the rectangle, and a confirm
//! asks the exporter what to do.  Holding the state in one place keeps the
//! update order deterministic and rules out re-entrant notification cycles.

use vstd::prelude::*;

use crate::counter_input::CounterView;
use crate::export::ExportDecision;
use crate::export::export_plan;
use crate::field_sync::CropField;
use crate::field_sync::apply_field_edit;
use crate::field_sync::component_of;
use crate::field_sync::rect_field_values;
use crate::field_sync::reset_rect;
use crate::field_sync::with_component;
use crate::frac::Frac;
use crate::frac::lemma_rat_eq_trans;
use crate::frac::rat_eq;
use crate::frac::rat_floor_u32;
use crate::frac::rat_le;
use crate::frac::rat_of_int;
use crate::counter_input::parse_u32_spec;
use crate::image_crop::ImageCrop;
use crate::image_crop::crop_eq;
use crate::mapper::MAX_DIM;
use crate::mapper::ViewportGeometry;
use crate::misc::CroppingMousePosition;
use crate::selection::candidate_extent;
use crate::selection::candidate_origin;
use crate::selection::candidate_rect;

verus! {

/// A pointer coordinate made canvas-local: the canvas origin is subtracted
/// from an absolute coordinate, with positions left of the canvas landing
/// on its edge (the clamp to the visible image swallows the difference).
pub open spec fn rel_coord(p: u32, o: u32) -> int {
    if p >= o {
        p - o
    } else {
        0
    }
}

/// The current pointer position in canvas-local coordinates: a drag-start
/// position already is local, a drag-move position is absolute.
pub open spec fn current_rel(mp: CroppingMousePosition, origin: (u32, u32)) -> (int, int) {
    match mp {
        CroppingMousePosition::Initial(p) => (p.0 as int, p.1 as int),
        CroppingMousePosition::Moved(p) => (rel_coord(p.0, origin.0), rel_coord(p.1, origin.1)),
    }
}

/// What a numeric field's counter shows after the library pushes the value
/// `t` into it: the value when it fits a signed integer, the old content
/// otherwise (out-of-range text does not re-parse).
pub open spec fn counter_after(old_value: i32, t: int) -> i32 {
    if t <= i32::MAX {
        t as i32
    } else {
        old_value
    }
}

/// Push a truncated rectangle component into a field's counter.
fn set_counter(c: &mut CounterView, t: u32)
    ensures
        final(c).counter_value == counter_after(old(c).counter_value, t as int),
{
    if t <= 0x7FFF_FFFF {
        c.counter_value = t as i32;
    }
}

/// The canonical interaction state: the four numeric fields, the drag
/// session, the authoritative rectangle, the rectangle captured when the
/// image loaded, and the destination path.
pub struct BasicropState {
    pub crop_x: CounterView,
    pub crop_y: CounterView,
    pub width: CounterView,
    pub height: CounterView,
    pub mouse_initial_pos: (u32, u32),
    pub mouse_pos: CroppingMousePosition,
    pub is_selecting: bool,
    pub image_crop: ImageCrop,
    pub image_crop_initial: ImageCrop,
    pub dest_image_path: Vec<u8>,
}

impl BasicropState {
    /// The rectangles are well formed, and the live one stays small enough
    /// for the mapper.
    pub open spec fn wf(self) -> bool {
        &&& self.image_crop.wf()
        &&& self.image_crop.bounded()
        &&& self.image_crop_initial.wf()
    }

    /// A fresh session: no rectangle yet, no drag, counters at zero.
    pub fn new(dest_image_path: Vec<u8>) -> (r: BasicropState)
        ensures
            r.wf(),
            r.image_crop is Uninitialized,
            r.image_crop_initial is Uninitialized,
            !r.is_selecting,
            r.dest_image_path == dest_image_path,
            r.crop_x.counter_value == 0,
            r.crop_y.counter_value == 0,
            r.width.counter_value == 0,
            r.height.counter_value == 0,
    {
        BasicropState {
            crop_x: CounterView::new(0),
            crop_y: CounterView::new(0),
            width: CounterView::new(0),
            height: CounterView::new(0),
            mouse_initial_pos: (0, 0),
            mouse_pos: CroppingMousePosition::Moved((0, 0)),
            is_selecting: false,
            image_crop: ImageCrop::Uninitialized,
            image_crop_initial: ImageCrop::Uninitialized,
            dest_image_path,
        }
    }

    /// The image finished decoding: the first time this happens, the
    /// rectangle becomes the full image and the size fields follow.
    pub fn on_image_loaded(&mut self, image_w: u32, image_h: u32)
        requires
            old(self).wf(),
            image_w <= MAX_DIM,
            image_h <= MAX_DIM,
        ensures
            final(self).wf(),
            old(self).image_crop is Uninitialized ==> final(self).image_crop == (
            ImageCrop::Cropped {
                crop_x: Frac { num: 0, den: 1 },
                crop_y: Frac { num: 0, den: 1 },
                width: Frac { num: image_w as u64, den: 1 },
                height: Frac { num: image_h as u64, den: 1 },
            }) && final(self).width.counter_value == image_w && final(self).height.counter_value
                == image_h,
            old(self).image_crop is Cropped ==> *final(self) == *old(self),
            final(self).image_crop_initial == old(self).image_crop_initial,
            final(self).is_selecting == old(self).is_selecting,
            final(self).dest_image_path == old(self).dest_image_path,
    {
        if let ImageCrop::Uninitialized = self.image_crop {
            self.image_crop = reset_rect(image_w, image_h);
            self.width.counter_value = image_w as i32;
            self.height.counter_value = image_h as i32;
        }
    }

    /// The reset command: the rectangle covers the whole image again and
    /// all four fields are overwritten.
    pub fn reset(&mut self, image_w: u32, image_h: u32)
        requires
            old(self).wf(),
            image_w <= MAX_DIM,
            image_h <= MAX_DIM,
        ensures
            final(self).wf(),
            final(self).image_crop == (ImageCrop::Cropped {
                crop_x: Frac { num: 0, den: 1 },
                crop_y: Frac { num: 0, den: 1 },
                width: Frac { num: image_w as u64, den: 1 },
                height: Frac { num: image_h as u64, den: 1 },
            }),
            final(self).crop_x.counter_value == 0,
            final(self).crop_y.counter_value == 0,
            final(self).width.counter_value == image_w,
            final(self).height.counter_value == image_h,
            final(self).image_crop_initial == old(self).image_crop_initial,
            final(self).is_selecting == old(self).is_selecting,
            final(self).dest_image_path == old(self).dest_image_path,
    {
        self.image_crop = reset_rect(image_w, image_h);
        self.crop_x.counter_value = 0;
        self.crop_y.counter_value = 0;
        self.width.counter_value = image_w as i32;
        self.height.counter_value = image_h as i32;
    }

    /// Pointer down inside the canvas: a drag begins; both positions start
    /// at the canvas-local pointer position.
    pub fn drag_start(&mut self, pos: (u32, u32))
        ensures
            final(self).is_selecting,
            final(self).mouse_initial_pos == pos,
            final(self).mouse_pos == CroppingMousePosition::Initial(pos),
            final(self).image_crop == old(self).image_crop,
            final(self).image_crop_initial == old(self).image_crop_initial,
            final(self).crop_x == old(self).crop_x,
            final(self).crop_y == old(self).crop_y,
            final(self).width == old(self).width,
            final(self).height == old(self).height,
            final(self).dest_image_path == old(self).dest_image_path,
    {
        self.mouse_pos = CroppingMousePosition::Initial(pos);
        self.mouse_initial_pos = pos;
        self.is_selecting = true;
    }

    /// Pointer moved: only the current position changes.
    pub fn drag_move(&mut self, pos: (u32, u32))
        ensures
            final(self).mouse_pos == CroppingMousePosition::Moved(pos),
            final(self).is_selecting == old(self).is_selecting,
            final(self).mouse_initial_pos == old(self).mouse_initial_pos,
            final(self).image_crop == old(self).image_crop,
            final(self).image_crop_initial == old(self).image_crop_initial,
            final(self).crop_x == old(self).crop_x,
            final(self).crop_y == old(self).crop_y,
            final(self).width == old(self).width,
            final(self).height == old(self).height,
            final(self).dest_image_path == old(self).dest_image_path,
    {
        self.mouse_pos = CroppingMousePosition::Moved(pos);
    }

    /// Pointer released (anywhere) or gone: the drag ends and the last
    /// derived rectangle stays committed, untouched from here on.
    pub fn drag_end(&mut self)
        ensures
            !final(self).is_selecting,
            final(self).mouse_initial_pos == old(self).mouse_initial_pos,
            final(self).mouse_pos == old(self).mouse_pos,
            final(self).image_crop == old(self).image_crop,
            final(self).image_crop_initial == old(self).image_crop_initial,
            final(self).crop_x == old(self).crop_x,
            final(self).crop_y == old(self).crop_y,
            final(self).width == old(self).width,
            final(self).height == old(self).height,
            final(self).dest_image_path == old(self).dest_image_path,
    {
        self.is_selecting = false;
    }

    /// One paint while a drag is active: derive the candidate rectangle
    /// from the two pointer positions, adopt it if it differs from the
    /// current value, and push the truncated components into the fields.
    /// Outside a drag nothing happens.  The result says whether the
    /// rectangle changed.
    pub fn pointer_update(&mut self, g: &ViewportGeometry, origin: (u32, u32)) -> (changed: bool)
        requires
            old(self).wf(),
            g.wf(),
        ensures
            final(self).wf(),
            !old(self).is_selecting ==> *final(self) == *old(self) && !changed,
            changed == !crop_eq(old(self).image_crop, final(self).image_crop),
            !changed ==> final(self).image_crop == old(self).image_crop,
            old(self).is_selecting ==> final(self).image_crop is Cropped,
            old(self).is_selecting ==> (final(self).image_crop matches ImageCrop::Cropped {
                crop_x,
                crop_y,
                width,
                height,
            } ==> {
                let pi = old(self).mouse_initial_pos;
                let pc = current_rel(old(self).mouse_pos, origin);
                &&& rat_eq(
                    crop_x@,
                    candidate_origin(
                        g.scale@,
                        g.padding_x@,
                        g.visible_width@,
                        pi.0 as int,
                        pc.0,
                    ),
                )
                &&& rat_eq(
                    crop_y@,
                    candidate_origin(
                        g.scale@,
                        g.padding_y@,
                        g.visible_height@,
                        pi.1 as int,
                        pc.1,
                    ),
                )
                &&& rat_eq(
                    width@,
                    candidate_extent(
                        g.scale@,
                        g.padding_x@,
                        g.visible_width@,
                        pi.0 as int,
                        pc.0,
                    ),
                )
                &&& rat_eq(
                    height@,
                    candidate_extent(
                        g.scale@,
                        g.padding_y@,
                        g.visible_height@,
                        pi.1 as int,
                        pc.1,
                    ),
                )
                &&& rat_le(rat_of_int(0), width@)
                &&& rat_le(rat_of_int(0), height@)
            }),
            old(self).is_selecting ==> (final(self).image_crop matches ImageCrop::Cropped {
                crop_x,
                crop_y,
                width,
                height,
            } ==> {
                &&& final(self).crop_x.counter_value == counter_after(
                    old(self).crop_x.counter_value,
                    rat_floor_u32(crop_x@),
                )
                &&& final(self).crop_y.counter_value == counter_after(
                    old(self).crop_y.counter_value,
                    rat_floor_u32(crop_y@),
                )
                &&& final(self).width.counter_value == counter_after(
                    old(self).width.counter_value,
                    rat_floor_u32(width@),
                )
                &&& final(self).height.counter_value == counter_after(
                    old(self).height.counter_value,
                    rat_floor_u32(height@),
                )
            }),
            old(self).is_selecting ==> ({
                &&& final(self).is_selecting == old(self).is_selecting
                &&& final(self).mouse_initial_pos == old(self).mouse_initial_pos
                &&& final(self).mouse_pos == old(self).mouse_pos
                &&& final(self).image_crop_initial == old(self).image_crop_initial
                &&& final(self).dest_image_path == old(self).dest_image_path
            }),
    {
        if !self.is_selecting {
            return false;
        }
        let init_rel = self.mouse_initial_pos;
        let cur_rel: (u32, u32) = match &self.mouse_pos {
            CroppingMousePosition::Initial(p) => *p,
            CroppingMousePosition::Moved(p) => {
                let cx = if p.0 >= origin.0 {
                    p.0 - origin.0
                } else {
                    0
                };
                let cy = if p.1 >= origin.1 {
                    p.1 - origin.1
                } else {
                    0
                };
                (cx, cy)
            },
        };
        let cand = candidate_rect(g, init_rel, cur_rel);
        let changed = !(cand == self.image_crop);
        if changed {
            self.image_crop = cand;
        } else {
            proof {
                lemma_adopt_equal(self.image_crop, cand);
                match (self.image_crop, cand) {
                    (
                        ImageCrop::Cropped { crop_x, crop_y, width, height },
                        ImageCrop::Cropped {
                            crop_x: c_crop_x,
                            crop_y: c_crop_y,
                            width: c_width,
                            height: c_height,
                        },
                    ) => {
                        lemma_rat_eq_trans(
                            crop_x@,
                            c_crop_x@,
                            candidate_origin(
                                g.scale@,
                                g.padding_x@,
                                g.visible_width@,
                                init_rel.0 as int,
                                cur_rel.0 as int,
                            ),
                        );
                        lemma_rat_eq_trans(
                            crop_y@,
                            c_crop_y@,
                            candidate_origin(
                                g.scale@,
                                g.padding_y@,
                                g.visible_height@,
                                init_rel.1 as int,
                                cur_rel.1 as int,
                            ),
                        );
                        lemma_rat_eq_trans(
                            width@,
                            c_width@,
                            candidate_extent(
                                g.scale@,
                                g.padding_x@,
                                g.visible_width@,
                                init_rel.0 as int,
                                cur_rel.0 as int,
                            ),
                        );
                        lemma_rat_eq_trans(
                            height@,
                            c_height@,
                            candidate_extent(
                                g.scale@,
                                g.padding_y@,
                                g.visible_height@,
                                init_rel.1 as int,
                                cur_rel.1 as int,
                            ),
                        );
                    },
                    _ => {},
                }
            }
        }
        match rect_field_values(&self.image_crop) {
            Some(vals) => {
                set_counter(&mut self.crop_x, vals.0);
                set_counter(&mut self.crop_y, vals.1);
                set_counter(&mut self.width, vals.2);
                set_counter(&mut self.height, vals.3);
            },
            None => {},
        }
        changed
    }

    /// A field's text changed: apply the edit under the synchronization
    /// guards.  The rectangle is untouched while undefined, for text that
    /// does not parse, and for a value equal to the field's current
    /// contribution.
    pub fn field_edited(&mut self, field: CropField, text: &[u8]) -> (changed: bool)
        requires
            old(self).wf(),
        ensures
            final(self).wf(),
            old(self).image_crop is Uninitialized ==> final(self).image_crop == old(
                self,
            ).image_crop && !changed,
            parse_u32_spec(text@) is None ==> final(self).image_crop == old(self).image_crop
                && !changed,
            old(self).image_crop is Cropped ==> (parse_u32_spec(text@) matches Some(v) ==> {
                if v as int == rat_floor_u32(component_of(old(self).image_crop, field)@) {
                    &&& final(self).image_crop == old(self).image_crop
                    &&& !changed
                } else {
                    &&& final(self).image_crop == with_component(
                        old(self).image_crop,
                        field,
                        Frac { num: v as u64, den: 1 },
                    )
                    &&& changed
                }
            }),
            final(self).is_selecting == old(self).is_selecting,
            final(self).image_crop_initial == old(self).image_crop_initial,
            final(self).dest_image_path == old(self).dest_image_path,
    {
        let (updated, changed) = apply_field_edit(self.image_crop, field, text);
        self.image_crop = updated;
        changed
    }

    /// The confirm action: what the exporter should do, decided from the
    /// live rectangle and the one captured at initialization.
    pub fn confirm(&self, image_loaded: bool) -> (d: ExportDecision)
        requires
            self.wf(),
        ensures
            crop_eq(self.image_crop, self.image_crop_initial) ==> d == ExportDecision::NoWrite,
            !crop_eq(self.image_crop, self.image_crop_initial) && (self.image_crop
                is Uninitialized || !image_loaded) ==> d == ExportDecision::Fatal,
            !crop_eq(self.image_crop, self.image_crop_initial) && self.image_crop is Cropped
                && image_loaded ==> (self.image_crop matches ImageCrop::Cropped {
                crop_x,
                crop_y,
                width,
                height,
            } ==> {
                &&& d matches ExportDecision::Proceed(f)
                &&& f.crop_x as int == rat_floor_u32(crop_x@)
                &&& f.crop_y as int == rat_floor_u32(crop_y@)
                &&& f.width as int == rat_floor_u32(width@)
                &&& f.height as int == rat_floor_u32(height@)
            }),
    {
        export_plan(self.image_crop, self.image_crop_initial, image_loaded)
    }
}

/// When the current rectangle equals the candidate by value, the current
/// components carry the candidate's rational values too.
proof fn lemma_adopt_equal(current: ImageCrop, cand: ImageCrop)
    requires
        current.wf(),
        cand.wf(),
        crop_eq(cand, current),
    ensures
        (match (current, cand) {
            (
                ImageCrop::Cropped { crop_x, crop_y, width, height },
                ImageCrop::Cropped {
                    crop_x: c_crop_x,
                    crop_y: c_crop_y,
                    width: c_width,
                    height: c_height,
                },
            ) => {
                &&& rat_eq(crop_x@, c_crop_x@)
                &&& rat_eq(crop_y@, c_crop_y@)
                &&& rat_eq(width@, c_width@)
                &&& rat_eq(height@, c_height@)
            },
            _ => true,
        }),
{
    match (current, cand) {
        (
            ImageCrop::Cropped { crop_x, crop_y, width, height },
            ImageCrop::Cropped {
                crop_x: c_crop_x,
                crop_y: c_crop_y,
                width: c_width,
                height: c_height,
            },
        ) => {
            crate::frac::lemma_rat_eq_sym(c_crop_x@, crop_x@);
            crate::frac::lemma_rat_eq_sym(c_crop_y@, crop_y@);
            crate::frac::lemma_rat_eq_sym(c_width@, width@);
            crate::frac::lemma_rat_eq_sym(c_height@, height@);
        },
        _ => {},
    }
}

} // verus!
