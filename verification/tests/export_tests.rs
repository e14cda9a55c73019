use basicrop::export::ExportDecision;
use basicrop::export::OutputFormat;
use basicrop::export::clamp_crop;
use basicrop::export::default_destination;
use basicrop::export::drop_alpha;
use basicrop::export::export_plan;
use basicrop::export::extract_sub_raster;
use basicrop::export::output_format_for_path;
use basicrop::export::render_crop_raster;
use basicrop::export::swap_rb;
use basicrop::frac::Frac;
use basicrop::image_crop::FinalizedImageCrop;
use basicrop::image_crop::ImageCrop;
use basicrop::misc::CroppingMousePosition;
use basicrop::misc::LoadingImage;
use basicrop::misc::RasterImage;

fn defined(x: Frac, y: Frac, w: Frac, h: Frac) -> ImageCrop {
    ImageCrop::Cropped { crop_x: x, crop_y: y, width: w, height: h }
}

#[test]
fn unchanged_rectangle_skips_the_write() {
    // The live value equals the initial one (even under a different
    // fraction representation): nothing is written, completion is still
    // signalled by the caller.
    let initial = defined(Frac::new(0, 1), Frac::new(0, 1), Frac::new(1000, 1), Frac::new(500, 1));
    let current = defined(Frac::new(0, 2), Frac::new(0, 7), Frac::new(2000, 2), Frac::new(500, 1));
    assert_eq!(export_plan(current, initial, true), ExportDecision::NoWrite);
    assert_eq!(
        export_plan(ImageCrop::Uninitialized, ImageCrop::Uninitialized, true),
        ExportDecision::NoWrite
    );
}

#[test]
fn missing_rectangle_or_image_is_fatal() {
    let rect = defined(Frac::new(0, 1), Frac::new(0, 1), Frac::new(10, 1), Frac::new(10, 1));
    assert_eq!(export_plan(ImageCrop::Uninitialized, rect, true), ExportDecision::Fatal);
    assert_eq!(export_plan(rect, ImageCrop::Uninitialized, false), ExportDecision::Fatal);
}

#[test]
fn changed_rectangle_proceeds_with_truncated_bounds() {
    let initial = defined(Frac::new(0, 1), Frac::new(0, 1), Frac::new(1000, 1), Frac::new(500, 1));
    let current = defined(Frac::new(251, 2), Frac::new(125, 1), Frac::new(500, 1), Frac::new(125, 2));
    let d = export_plan(current, initial, true);
    assert_eq!(
        d,
        ExportDecision::Proceed(FinalizedImageCrop { crop_x: 125, crop_y: 125, width: 500, height: 62 })
    );
}

#[test]
fn format_follows_destination_extension() {
    assert_eq!(output_format_for_path(b"photo.png"), OutputFormat::Rgba8);
    assert_eq!(output_format_for_path(b"photo.PNG"), OutputFormat::Rgba8);
    assert_eq!(output_format_for_path(b"photo.webp"), OutputFormat::Rgba8);
    assert_eq!(output_format_for_path(b"photo.WebP"), OutputFormat::Rgba8);
    assert_eq!(output_format_for_path(b"photo.jpg"), OutputFormat::Rgb8);
    assert_eq!(output_format_for_path(b"photo.jpeg"), OutputFormat::Rgb8);
    assert_eq!(output_format_for_path(b"photo.cropped.png"), OutputFormat::Rgba8);
    assert_eq!(output_format_for_path(b"noextension"), OutputFormat::Rgb8);
    assert_eq!(output_format_for_path(b"dir.png/noextension"), OutputFormat::Rgb8);
    assert_eq!(output_format_for_path(b"trailing."), OutputFormat::Rgb8);
}

#[test]
fn extraction_cuts_the_requested_pixels() {
    // A 2x2 image whose bytes are 0..16; the 1x1 crop at (1, 0) is the
    // second pixel.
    let src: Vec<u8> = (0u8..16).collect();
    let crop = FinalizedImageCrop { crop_x: 1, crop_y: 0, width: 1, height: 1 };
    assert_eq!(extract_sub_raster(&src, 2, 2, &crop), vec![4, 5, 6, 7]);
    let bottom = FinalizedImageCrop { crop_x: 0, crop_y: 1, width: 2, height: 1 };
    assert_eq!(extract_sub_raster(&src, 2, 2, &bottom), vec![8, 9, 10, 11, 12, 13, 14, 15]);
}

#[test]
fn channel_swap_exchanges_first_and_third_byte() {
    let src: Vec<u8> = vec![1, 2, 3, 4, 5, 6, 7, 8];
    assert_eq!(swap_rb(&src), vec![3, 2, 1, 4, 7, 6, 5, 8]);
}

#[test]
fn alpha_drop_keeps_three_bytes_per_pixel() {
    let src: Vec<u8> = vec![1, 2, 3, 4, 5, 6, 7, 8];
    assert_eq!(drop_alpha(&src), vec![1, 2, 3, 5, 6, 7]);
}

#[test]
fn alpha_kept_for_png_dropped_for_jpg() {
    let src: Vec<u8> = (0u8..16).collect();
    let crop = FinalizedImageCrop { crop_x: 1, crop_y: 0, width: 1, height: 1 };
    let with_alpha = render_crop_raster(&src, 2, 2, &crop, output_format_for_path(b"out.png"));
    assert_eq!(with_alpha, vec![6, 5, 4, 7]);
    assert_eq!(with_alpha.len(), 4);
    let opaque = render_crop_raster(&src, 2, 2, &crop, output_format_for_path(b"out.jpg"));
    assert_eq!(opaque, vec![6, 5, 4]);
    assert_eq!(opaque.len(), 3);
}

#[test]
fn clamping_respects_image_bounds() {
    let wild = FinalizedImageCrop { crop_x: 900, crop_y: 0, width: 200, height: 600 };
    let clamped = clamp_crop(&wild, 1000, 500);
    assert_eq!(clamped, FinalizedImageCrop { crop_x: 900, crop_y: 0, width: 100, height: 500 });
    let fits = FinalizedImageCrop { crop_x: 10, crop_y: 20, width: 30, height: 40 };
    assert_eq!(clamp_crop(&fits, 1000, 500), fits);
}

#[test]
fn default_destination_inserts_before_extension() {
    assert_eq!(default_destination(b"a/b.png"), b"a/b.cropped.png".to_vec());
    assert_eq!(default_destination(b"noext"), b"noext.cropped".to_vec());
    assert_eq!(default_destination(b"archive.tar.gz"), b"archive.tar.cropped.gz".to_vec());
}

#[test]
fn loader_states_expose_the_image_only_when_ready() {
    let img = RasterImage { width: 2, height: 2, data: (0u8..16).collect() };
    let ready = LoadingImage::Image(img);
    assert!(ready.get_image().is_some());
    assert_eq!(ready.get_image().unwrap().width, 2);
    assert!(LoadingImage::Failed.get_image().is_none());
    assert!(LoadingImage::Loading.get_image().is_none());
}

#[test]
fn mouse_positions_resolve_against_the_canvas_origin() {
    let local = CroppingMousePosition::Initial((10, 20));
    assert_eq!(local.resolve(5, 6), (15, 26));
    let absolute = CroppingMousePosition::Moved((10, 20));
    assert_eq!(absolute.resolve(5, 6), (10, 20));
}
