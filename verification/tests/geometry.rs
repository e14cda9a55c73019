use basicrop::frac::Frac;
use basicrop::mapper::ViewportGeometry;

#[test]
fn contain_fit_wide_image() {
    // Image 1000x500 in a square 800x800 viewport: the width limits, so
    // scale = 800/1000 = 0.8, the visible image is 800x400 and the leftover
    // height is split into 200 pixels of letterbox above and below.
    let g = ViewportGeometry::new(800, 800, 1000, 500);
    assert_eq!(g.scale, Frac::new(4, 5));
    assert_eq!(g.visible_width, Frac::new(800, 1));
    assert_eq!(g.visible_height, Frac::new(400, 1));
    assert_eq!(g.padding_x, Frac::new(0, 1));
    assert_eq!(g.padding_y, Frac::new(200, 1));
}

#[test]
fn contain_fit_tall_image() {
    let g = ViewportGeometry::new(800, 800, 500, 1000);
    assert_eq!(g.scale, Frac::new(4, 5));
    assert_eq!(g.visible_width, Frac::new(400, 1));
    assert_eq!(g.visible_height, Frac::new(800, 1));
    assert_eq!(g.padding_x, Frac::new(200, 1));
    assert_eq!(g.padding_y, Frac::new(0, 1));
}

#[test]
fn contain_fit_matching_aspect() {
    let g = ViewportGeometry::new(800, 800, 400, 400);
    assert_eq!(g.scale, Frac::new(2, 1));
    assert_eq!(g.padding_x, Frac::new(0, 1));
    assert_eq!(g.padding_y, Frac::new(0, 1));
    assert_eq!(g.visible_width, Frac::new(800, 1));
}

#[test]
fn forward_then_inverse_is_identity() {
    let g = ViewportGeometry::new(800, 800, 1000, 500);
    let x = Frac::new(125, 1);
    let v = g.forward_map_x(&x);
    assert_eq!(v, Frac::new(100, 1));
    let back = g.inverse_map_x(100);
    assert_eq!(back, x);

    let y = Frac::new(125, 1);
    let vy = g.forward_map_y(&y);
    assert_eq!(vy, Frac::new(300, 1));
    assert_eq!(g.inverse_map_y(300), y);
}

#[test]
fn inverse_map_fractional_result() {
    // (350 - 200) / 0.8 = 187.5 exactly.
    let g = ViewportGeometry::new(800, 800, 1000, 500);
    assert_eq!(g.inverse_map_y(350), Frac::new(375, 2));
}

#[test]
fn frac_value_equality_and_truncation() {
    assert_eq!(Frac::new(800, 1000), Frac::new(4, 5));
    assert!(Frac::new(1, 2) != Frac::new(2, 3));
    assert_eq!(Frac::new(375, 2).trunc_u32(), 187);
    assert_eq!(Frac::new(0, 7).trunc_u32(), 0);
    assert!(Frac::new(1, 3).le(&Frac::new(2, 5)));
    assert!(!Frac::new(2, 5).le(&Frac::new(1, 3)));
}
