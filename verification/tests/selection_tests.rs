use basicrop::basicrop_state::BasicropState;
use basicrop::frac::Frac;
use basicrop::image_crop::ImageCrop;
use basicrop::mapper::ViewportGeometry;
use basicrop::selection::candidate_rect;
use basicrop::selection::overlay_box;

fn components(r: &ImageCrop) -> (Frac, Frac, Frac, Frac) {
    match r {
        ImageCrop::Cropped { crop_x, crop_y, width, height } => (*crop_x, *crop_y, *width, *height),
        ImageCrop::Uninitialized => panic!("rectangle should be defined"),
    }
}

#[test]
fn drag_scenario_maps_into_image_space() {
    // Drag from (100, 300) to (500, 350) under the 800x800 viewport /
    // 1000x500 image mapping: origin (125, 125), size 500 x 62.5.
    let g = ViewportGeometry::new(800, 800, 1000, 500);
    let r = candidate_rect(&g, (100, 300), (500, 350));
    let (x, y, w, h) = components(&r);
    assert_eq!(x, Frac::new(125, 1));
    assert_eq!(y, Frac::new(125, 1));
    assert_eq!(w, Frac::new(500, 1));
    assert_eq!(h, Frac::new(125, 2));
}

#[test]
fn reversed_drag_gives_same_rectangle() {
    let g = ViewportGeometry::new(800, 800, 1000, 500);
    let forward = candidate_rect(&g, (100, 300), (500, 350));
    let backward = candidate_rect(&g, (500, 350), (100, 300));
    assert_eq!(forward, backward);
    let (_, _, w, h) = components(&backward);
    assert!(Frac::new(0, 1).le(&w));
    assert!(Frac::new(0, 1).le(&h));
}

#[test]
fn zero_movement_drag_is_empty_rectangle() {
    let g = ViewportGeometry::new(800, 800, 1000, 500);
    let r = candidate_rect(&g, (100, 300), (100, 300));
    let (x, y, w, h) = components(&r);
    assert_eq!(x, Frac::new(125, 1));
    assert_eq!(y, Frac::new(125, 1));
    assert_eq!(w, Frac::new(0, 1));
    assert_eq!(h, Frac::new(0, 1));
}

#[test]
fn drag_outside_image_is_clamped() {
    let g = ViewportGeometry::new(800, 800, 1000, 500);
    let r = candidate_rect(&g, (100, 300), (10000, 10000));
    let (x, y, w, h) = components(&r);
    assert_eq!(x, Frac::new(125, 1));
    assert_eq!(y, Frac::new(125, 1));
    assert_eq!(w, Frac::new(875, 1));
    assert_eq!(h, Frac::new(375, 1));
}

#[test]
fn overlay_box_idle_maps_rectangle_back() {
    let g = ViewportGeometry::new(800, 800, 1000, 500);
    let rect = ImageCrop::Cropped {
        crop_x: Frac::new(125, 1),
        crop_y: Frac::new(125, 1),
        width: Frac::new(500, 1),
        height: Frac::new(125, 2),
    };
    let (x, y, w, h) = overlay_box(&g, &rect);
    assert_eq!(x, Frac::new(100, 1));
    assert_eq!(y, Frac::new(300, 1));
    assert_eq!(w, Frac::new(400, 1));
    assert_eq!(h, Frac::new(50, 1));
}

#[test]
fn overlay_box_uninitialized_is_empty() {
    let g = ViewportGeometry::new(800, 800, 1000, 500);
    let (x, y, w, h) = overlay_box(&g, &ImageCrop::Uninitialized);
    assert_eq!(x, Frac::new(0, 1));
    assert_eq!(y, Frac::new(0, 1));
    assert_eq!(w, Frac::new(0, 1));
    assert_eq!(h, Frac::new(0, 1));
}

#[test]
fn drag_session_commits_rectangle() {
    let g = ViewportGeometry::new(800, 800, 1000, 500);
    let mut s = BasicropState::new(b"out.png".to_vec());
    s.on_image_loaded(1000, 500);
    s.drag_start((100, 300));
    assert!(s.is_selecting);
    s.drag_move((500, 350));
    let changed = s.pointer_update(&g, (0, 0));
    assert!(changed);
    let (x, _, w, h) = components(&s.image_crop);
    assert_eq!(x, Frac::new(125, 1));
    assert_eq!(w, Frac::new(500, 1));
    assert_eq!(h, Frac::new(125, 2));
    // Fields follow the rectangle, truncated.
    assert_eq!(s.crop_x.counter_value, 125);
    assert_eq!(s.height.counter_value, 62);
    // A second paint with the same pointer state writes nothing new.
    let changed_again = s.pointer_update(&g, (0, 0));
    assert!(!changed_again);
    s.drag_end();
    assert!(!s.is_selecting);
    assert_eq!(x, Frac::new(125, 1));
}

#[test]
fn pointer_update_outside_drag_is_inert() {
    let g = ViewportGeometry::new(800, 800, 1000, 500);
    let mut s = BasicropState::new(b"out.png".to_vec());
    s.on_image_loaded(1000, 500);
    let before = s.image_crop;
    assert!(!s.pointer_update(&g, (0, 0)));
    assert_eq!(s.image_crop, before);
}

#[test]
fn drag_positions_relative_to_canvas_origin() {
    // The same drag reported in absolute coordinates of a canvas whose
    // origin is (40, 60) commits the same rectangle.
    let g = ViewportGeometry::new(800, 800, 1000, 500);
    let mut s = BasicropState::new(b"out.png".to_vec());
    s.on_image_loaded(1000, 500);
    s.drag_start((100, 300));
    s.drag_move((540, 410));
    assert!(s.pointer_update(&g, (40, 60)));
    let (x, y, w, h) = components(&s.image_crop);
    assert_eq!(x, Frac::new(125, 1));
    assert_eq!(y, Frac::new(125, 1));
    assert_eq!(w, Frac::new(500, 1));
    assert_eq!(h, Frac::new(125, 2));
}
