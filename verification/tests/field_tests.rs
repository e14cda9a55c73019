use basicrop::counter_input::CounterView;
use basicrop::counter_input::StepAction;
use basicrop::counter_input::parse_i32;
use basicrop::counter_input::parse_u32;
use basicrop::counter_input::u32_to_dec;
use basicrop::field_sync::CropField;
use basicrop::field_sync::apply_field_edit;
use basicrop::field_sync::rect_field_values;
use basicrop::field_sync::reset_rect;
use basicrop::frac::Frac;
use basicrop::image_crop::ImageCrop;

fn sample_rect() -> ImageCrop {
    ImageCrop::Cropped {
        crop_x: Frac::new(125, 1),
        crop_y: Frac::new(125, 1),
        width: Frac::new(500, 1),
        height: Frac::new(125, 2),
    }
}

#[test]
fn reset_covers_full_image() {
    let r = reset_rect(1000, 500);
    assert_eq!(
        r,
        ImageCrop::Cropped {
            crop_x: Frac::new(0, 1),
            crop_y: Frac::new(0, 1),
            width: Frac::new(1000, 1),
            height: Frac::new(500, 1),
        }
    );
}

#[test]
fn non_numeric_edit_leaves_rectangle_unchanged() {
    let rect = sample_rect();
    for text in [&b"12a"[..], b"", b"-5", b" 12", b"1.5"] {
        let (out, changed) = apply_field_edit(rect, CropField::X, text);
        assert_eq!(out, rect);
        assert!(!changed);
    }
}

#[test]
fn edit_while_uninitialized_is_ignored() {
    let (out, changed) = apply_field_edit(ImageCrop::Uninitialized, CropField::Width, b"10");
    assert_eq!(out, ImageCrop::Uninitialized);
    assert!(!changed);
}

#[test]
fn edit_equal_to_contribution_does_not_write() {
    // Height is 62.5, so the field shows 62; writing 62 back must not
    // re-trigger a rectangle update.
    let rect = sample_rect();
    let (out, changed) = apply_field_edit(rect, CropField::Height, b"62");
    assert_eq!(out, rect);
    assert!(!changed);
    let (out2, changed2) = apply_field_edit(rect, CropField::X, b"125");
    assert_eq!(out2, rect);
    assert!(!changed2);
}

#[test]
fn differing_edit_writes_one_component() {
    let rect = sample_rect();
    let (out, changed) = apply_field_edit(rect, CropField::X, b"200");
    assert!(changed);
    assert_eq!(
        out,
        ImageCrop::Cropped {
            crop_x: Frac::new(200, 1),
            crop_y: Frac::new(125, 1),
            width: Frac::new(500, 1),
            height: Frac::new(125, 2),
        }
    );
}

#[test]
fn field_values_truncate_components() {
    assert_eq!(rect_field_values(&sample_rect()), Some((125, 125, 500, 62)));
    assert_eq!(rect_field_values(&ImageCrop::Uninitialized), None);
}

#[test]
fn parse_unsigned_accepts_what_the_field_holds() {
    assert_eq!(parse_u32(b"123"), Some(123));
    assert_eq!(parse_u32(b"+7"), Some(7));
    assert_eq!(parse_u32(b"0"), Some(0));
    assert_eq!(parse_u32(b"007"), Some(7));
    assert_eq!(parse_u32(b"4294967295"), Some(u32::MAX));
    assert_eq!(parse_u32(b"4294967296"), None);
    assert_eq!(parse_u32(b"abc"), None);
    assert_eq!(parse_u32(b""), None);
    assert_eq!(parse_u32(b"+"), None);
    assert_eq!(parse_u32(b"-1"), None);
}

#[test]
fn parse_signed_handles_both_signs() {
    assert_eq!(parse_i32(b"42"), Some(42));
    assert_eq!(parse_i32(b"-5"), Some(-5));
    assert_eq!(parse_i32(b"+9"), Some(9));
    assert_eq!(parse_i32(b"2147483647"), Some(i32::MAX));
    assert_eq!(parse_i32(b"2147483648"), None);
    assert_eq!(parse_i32(b"-2147483648"), Some(i32::MIN));
    assert_eq!(parse_i32(b"-2147483649"), None);
    assert_eq!(parse_i32(b"-"), None);
    assert_eq!(parse_i32(b"1e3"), None);
}

#[test]
fn formatting_matches_field_display() {
    assert_eq!(u32_to_dec(0), b"0".to_vec());
    assert_eq!(u32_to_dec(7), b"7".to_vec());
    assert_eq!(u32_to_dec(1234), b"1234".to_vec());
    assert_eq!(u32_to_dec(u32::MAX), b"4294967295".to_vec());
}

#[test]
fn counter_steps_and_reparses() {
    let mut c = CounterView::new(5);
    let text = c.on_number_event(StepAction::Increment);
    assert_eq!(c.counter_value, 6);
    assert_eq!(text, b"6".to_vec());
    let mut d = CounterView::new(0);
    let text_down = d.on_number_event(StepAction::Decrement);
    assert_eq!(d.counter_value, -1);
    assert_eq!(text_down, b"-1".to_vec());
}

#[test]
fn counter_adopts_only_numeric_text() {
    let mut c = CounterView::new(3);
    c.on_input_event(b"42");
    assert_eq!(c.counter_value, 42);
    c.on_input_event(b"x42");
    assert_eq!(c.counter_value, 42);
}
