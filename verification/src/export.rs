//! Turning a confirmed crop rectangle into the bytes to write.
//!
//! The exporter decides first whether anything must be written at all (an
//! unchanged rectangle is a no-op), truncates the rectangle to integer
//! pixel bounds, clamps them to the image, extracts the sub-raster,
//! reorders the first and third channel of every pixel, and drops the
//! alpha channel unless the destination extension calls for one.

use vstd::prelude::*;

use crate::image_crop::FinalizedImageCrop;
use crate::image_crop::ImageCrop;
use crate::image_crop::crop_eq;
use crate::frac::rat_floor_u32;

verus! {

/// How the output raster is laid out, chosen by the destination path's
/// extension: alpha-capable formats keep four bytes per pixel, all others
/// get an opaque three-byte layout.
#[derive(Clone, Copy, Debug, PartialEq, Eq, Structural)]
pub enum OutputFormat {
    Rgba8,
    Rgb8,
}

/// What the exporter decided to do for one confirm action.
#[derive(Clone, Copy, Debug, PartialEq, Eq, Structural)]
pub enum ExportDecision {
    /// The rectangle never changed: write nothing, still signal completion.
    NoWrite,
    /// No defined rectangle or no decoded image: fatal, write nothing.
    Fatal,
    /// Write the crop with these integer pixel bounds.
    Proceed(FinalizedImageCrop),
}

/// Decide what a confirm action does.  A rectangle equal to the one
/// captured at initialization skips the write entirely; otherwise a
/// missing rectangle or a missing image is fatal; otherwise the rectangle
/// is truncated to integer pixel bounds and exported.
pub fn export_plan(current: ImageCrop, initial: ImageCrop, image_loaded: bool) -> (d:
    ExportDecision)
    requires
        current.wf(),
    ensures
        crop_eq(current, initial) ==> d == ExportDecision::NoWrite,
        !crop_eq(current, initial) && (current is Uninitialized || !image_loaded) ==> d
            == ExportDecision::Fatal,
        !crop_eq(current, initial) && current is Cropped && image_loaded ==> (current matches
            ImageCrop::Cropped { crop_x, crop_y, width, height } ==> {
            &&& d matches ExportDecision::Proceed(f)
            &&& f.crop_x as int == rat_floor_u32(crop_x@)
            &&& f.crop_y as int == rat_floor_u32(crop_y@)
            &&& f.width as int == rat_floor_u32(width@)
            &&& f.height as int == rat_floor_u32(height@)
        }),
{
    if current == initial {
        return ExportDecision::NoWrite;
    }
    if !image_loaded {
        return ExportDecision::Fatal;
    }
    match current.to_final() {
        Some(f) => ExportDecision::Proceed(f),
        None => ExportDecision::Fatal,
    }
}

/// Integer bounds clamped to the image: the origin is pulled inside the
/// image and the size shortened so the crop never reads past the raster.
/// Bounds that already fit come back unchanged.
pub fn clamp_crop(crop: &FinalizedImageCrop, img_w: u32, img_h: u32) -> (r: FinalizedImageCrop)
    ensures
        r.crop_x == (if crop.crop_x < img_w {
            crop.crop_x
        } else {
            img_w
        }),
        r.crop_y == (if crop.crop_y < img_h {
            crop.crop_y
        } else {
            img_h
        }),
        r.width == (if crop.width <= img_w - r.crop_x {
            crop.width
        } else {
            (img_w - r.crop_x) as u32
        }),
        r.height == (if crop.height <= img_h - r.crop_y {
            crop.height
        } else {
            (img_h - r.crop_y) as u32
        }),
        r.crop_x + r.width <= img_w,
        r.crop_y + r.height <= img_h,
        crop.crop_x + crop.width <= img_w && crop.crop_y + crop.height <= img_h ==> r == *crop,
{
    let crop_x = if crop.crop_x < img_w {
        crop.crop_x
    } else {
        img_w
    };
    let crop_y = if crop.crop_y < img_h {
        crop.crop_y
    } else {
        img_h
    };
    let width = if crop.width <= img_w - crop_x {
        crop.width
    } else {
        img_w - crop_x
    };
    let height = if crop.height <= img_h - crop_y {
        crop.height
    } else {
        img_h - crop_y
    };
    FinalizedImageCrop { crop_x, crop_y, width, height }
}

/// The bytes of the crop rectangle cut out of the full raster, row major,
/// four bytes per pixel.
pub open spec fn sub_raster_seq(src: Seq<u8>, img_w: int, x: int, y: int, w: int, h: int) -> Seq<
    u8,
> {
    Seq::new(
        (4 * w * h) as nat,
        |i: int| src[4 * ((y + (i / 4) / w) * img_w + x + ((i / 4) % w)) + i % 4],
    )
}

/// The raster with the first and third byte of every pixel exchanged.
pub open spec fn swap_rb_seq(src: Seq<u8>) -> Seq<u8> {
    Seq::new(
        src.len(),
        |i: int|
            if i % 4 == 0 {
                src[i + 2]
            } else if i % 4 == 2 {
                src[i - 2]
            } else {
                src[i]
            },
    )
}

/// The raster with the fourth byte of every pixel dropped.
pub open spec fn drop_alpha_seq(src: Seq<u8>) -> Seq<u8> {
    Seq::new((3 * (src.len() as int / 4)) as nat, |i: int| src[4 * (i / 3) + i % 3])
}

/// Index arithmetic behind `sub_raster_seq`: the byte the output holds at
/// pixel `(row, col)`, channel `b`.
proof fn lemma_sub_raster_byte(
    src: Seq<u8>,
    img_w: int,
    x: int,
    y: int,
    w: int,
    h: int,
    row: int,
    col: int,
    b: int,
)
    requires
        0 <= row < h,
        0 <= col < w,
        0 <= b < 4,
    ensures
        0 <= 4 * (w * row + col) + b < 4 * w * h,
        sub_raster_seq(src, img_w, x, y, w, h)[4 * (w * row + col) + b] == src[4 * ((y + row)
            * img_w + x + col) + b],
{
    let p = w * row + col;
    let k = 4 * p + b;
    assert(0 <= p && p < w * h && w * h * 4 == 4 * w * h && p * 4 == 4 * p) by (nonlinear_arith)
        requires
            0 <= row < h,
            0 <= col < w,
            p == w * row + col,
    ;
    vstd::arithmetic::div_mod::lemma_fundamental_div_mod_converse(k, 4, p, b);
    vstd::arithmetic::div_mod::lemma_fundamental_div_mod_converse(p, w, row, col);
}

/// Extract the crop rectangle's bytes from the full raster.  The bounds
/// must already be clamped to the image.
pub fn extract_sub_raster(src: &Vec<u8>, img_w: u32, img_h: u32, crop: &FinalizedImageCrop) -> (out:
    Vec<u8>)
    requires
        src@.len() == 4 * (img_w as int) * (img_h as int),
        crop.crop_x + crop.width <= img_w,
        crop.crop_y + crop.height <= img_h,
    ensures
        out@ == sub_raster_seq(
            src@,
            img_w as int,
            crop.crop_x as int,
            crop.crop_y as int,
            crop.width as int,
            crop.height as int,
        ),
        out@.len() == 4 * (crop.width as int) * (crop.height as int),
{
    let ghost target = sub_raster_seq(
        src@,
        img_w as int,
        crop.crop_x as int,
        crop.crop_y as int,
        crop.width as int,
        crop.height as int,
    );
    proof {
        assert(4 * (crop.width as int) * (crop.height as int) >= 0 && target.len() == 4 * (
        crop.width as int) * (crop.height as int)) by (nonlinear_arith)
            requires
                target.len() == (4 * (crop.width as int) * (crop.height as int)) as nat,
        ;
    }
    let w = crop.width as usize;
    let h = crop.height as usize;
    let x = crop.crop_x as usize;
    let y = crop.crop_y as usize;
    let iw = img_w as usize;
    let src_len = src.len();
    let mut out: Vec<u8> = Vec::new();
    let mut row: usize = 0;
    proof {
        assert(out@ =~= target.subrange(0, 0));
    }
    while row < h
        invariant
            row <= h,
            w == crop.width,
            h == crop.height,
            x == crop.crop_x,
            y == crop.crop_y,
            iw == img_w,
            src_len == src@.len(),
            src@.len() == 4 * (img_w as int) * (img_h as int),
            crop.crop_x + crop.width <= img_w,
            crop.crop_y + crop.height <= img_h,
            target == sub_raster_seq(
                src@,
                img_w as int,
                crop.crop_x as int,
                crop.crop_y as int,
                crop.width as int,
                crop.height as int,
            ),
            target.len() == 4 * (crop.width as int) * (crop.height as int),
            out@.len() == 4 * ((w as int) * (row as int)),
            out@ == target.subrange(0, out@.len() as int),
        decreases h - row,
    {
        let mut col: usize = 0;
        while col < w
            invariant
                row < h,
                col <= w,
                w == crop.width,
                h == crop.height,
                x == crop.crop_x,
                y == crop.crop_y,
                iw == img_w,
                src_len == src@.len(),
                src@.len() == 4 * (img_w as int) * (img_h as int),
                crop.crop_x + crop.width <= img_w,
                crop.crop_y + crop.height <= img_h,
                target == sub_raster_seq(
                    src@,
                    img_w as int,
                    crop.crop_x as int,
                    crop.crop_y as int,
                    crop.width as int,
                    crop.height as int,
                ),
                target.len() == 4 * (crop.width as int) * (crop.height as int),
                out@.len() == 4 * ((w as int) * (row as int) + (col as int)),
                out@ == target.subrange(0, out@.len() as int),
            decreases w - col,
        {
            proof {
                lemma_extract_bounds(
                    img_w as int,
                    img_h as int,
                    x as int,
                    y as int,
                    w as int,
                    h as int,
                    row as int,
                    col as int,
                );
                assert(y + row < img_h);
                assert(((y as int) + (row as int)) * (iw as int) + ((x as int) + (col as int))
                    >= 0);
                assert(4 * (((y as int) + (row as int)) * (iw as int) + ((x as int) + (
                col as int))) + 4 <= src@.len());
            }
            let base: usize = 4 * ((y + row) * iw + (x + col));
            let mut b: usize = 0;
            while b < 4
                invariant
                    b <= 4,
                    row < h,
                    col < w,
                    w == crop.width,
                    h == crop.height,
                    x == crop.crop_x,
                    y == crop.crop_y,
                    iw == img_w,
                    base == 4 * (((y as int) + row) * (iw as int) + ((x as int) + col)),
                    base + 4 <= src@.len(),
                    src_len == src@.len(),
                    src@.len() == 4 * (img_w as int) * (img_h as int),
                    target == sub_raster_seq(
                        src@,
                        img_w as int,
                        crop.crop_x as int,
                        crop.crop_y as int,
                        crop.width as int,
                        crop.height as int,
                    ),
                    target.len() == 4 * (crop.width as int) * (crop.height as int),
                    out@.len() == 4 * ((w as int) * (row as int) + (col as int)) + b,
                    out@ == target.subrange(0, out@.len() as int),
                decreases 4 - b,
            {
                let byte = src[base + b];
                proof {
                    lemma_sub_raster_byte(
                        src@,
                        img_w as int,
                        x as int,
                        y as int,
                        w as int,
                        h as int,
                        row as int,
                        col as int,
                        b as int,
                    );
                    assert(target.subrange(0, out@.len() as int).push(byte) =~= target.subrange(
                        0,
                        out@.len() as int + 1,
                    ));
                }
                out.push(byte);
                b = b + 1;
            }
            col = col + 1;
        }
        proof {
            vstd::arithmetic::mul::lemma_mul_is_distributive_add(w as int, row as int, 1);
        }
        row = row + 1;
    }
    proof {
        assert(4 * ((w as int) * (h as int)) == 4 * (crop.width as int) * (crop.height as int))
            by (nonlinear_arith)
            requires
                w == crop.width,
                h == crop.height,
        ;
        assert(target.subrange(0, target.len() as int) =~= target);
    }
    out
}

/// The pixel the inner extraction loop reads stays inside the raster.
proof fn lemma_extract_bounds(
    img_w: int,
    img_h: int,
    x: int,
    y: int,
    w: int,
    h: int,
    row: int,
    col: int,
)
    requires
        0 <= row < h,
        0 <= col < w,
        0 <= x,
        0 <= y,
        x + w <= img_w,
        y + h <= img_h,
    ensures
        0 <= (y + row) * img_w + (x + col),
        4 * ((y + row) * img_w + (x + col)) + 4 <= 4 * img_w * img_h,
{
    assert(0 <= (y + row) * img_w + (x + col) && ((y + row) * img_w + (x + col)) + 1 <= img_w
        * img_h && 4 * ((y + row) * img_w + (x + col)) + 4 <= 4 * img_w * img_h)
        by (nonlinear_arith)
        requires
            0 <= row < h,
            0 <= col < w,
            0 <= x,
            0 <= y,
            x + w <= img_w,
            y + h <= img_h,
    ;
}

/// Exchange the first and third byte of every four-byte pixel: the decoded
/// raster and the encoder disagree on channel order, and this conversion
/// puts each pixel into the order the encoder expects.
pub fn swap_rb(src: &Vec<u8>) -> (out: Vec<u8>)
    requires
        src@.len() % 4 == 0,
    ensures
        out@ == swap_rb_seq(src@),
        out@.len() == src@.len(),
{
    let ghost target = swap_rb_seq(src@);
    let n = src.len();
    let pixels = n / 4;
    let mut out: Vec<u8> = Vec::new();
    let mut p: usize = 0;
    proof {
        assert(out@ =~= target.subrange(0, 0));
    }
    while p < pixels
        invariant
            p <= pixels,
            pixels == n / 4,
            n == src@.len(),
            n % 4 == 0,
            target == swap_rb_seq(src@),
            target.len() == n,
            out@.len() == 4 * p,
            out@ == target.subrange(0, out@.len() as int),
        decreases pixels - p,
    {
        let mut b: usize = 0;
        while b < 4
            invariant
                b <= 4,
                p < pixels,
                pixels == n / 4,
                n == src@.len(),
                n % 4 == 0,
                target == swap_rb_seq(src@),
                target.len() == n,
                out@.len() == 4 * p + b,
                out@ == target.subrange(0, out@.len() as int),
            decreases 4 - b,
        {
            proof {
                vstd::arithmetic::div_mod::lemma_fundamental_div_mod(n as int, 4);
                assert(4 * (p as int) + 4 <= n) by (nonlinear_arith)
                    requires
                        p < pixels,
                        pixels == n as int / 4,
                        n as int == 4 * (n as int / 4),
                ;
                vstd::arithmetic::div_mod::lemma_fundamental_div_mod_converse(
                    4 * (p as int) + (b as int),
                    4,
                    p as int,
                    b as int,
                );
            }
            let byte = if b == 0 {
                src[4 * p + 2]
            } else if b == 2 {
                src[4 * p]
            } else {
                src[4 * p + b]
            };
            proof {
                assert(target.subrange(0, out@.len() as int).push(byte) =~= target.subrange(
                    0,
                    out@.len() as int + 1,
                ));
            }
            out.push(byte);
            b = b + 1;
        }
        p = p + 1;
    }
    proof {
        vstd::arithmetic::div_mod::lemma_fundamental_div_mod(n as int, 4);
        assert(target.subrange(0, target.len() as int) =~= target);
    }
    out
}

/// Drop the fourth byte of every pixel, turning the raster opaque.
pub fn drop_alpha(src: &Vec<u8>) -> (out: Vec<u8>)
    requires
        src@.len() % 4 == 0,
    ensures
        out@ == drop_alpha_seq(src@),
        out@.len() == 3 * (src@.len() as int / 4),
{
    let ghost target = drop_alpha_seq(src@);
    let n = src.len();
    let pixels = n / 4;
    let mut out: Vec<u8> = Vec::new();
    let mut p: usize = 0;
    proof {
        assert(out@ =~= target.subrange(0, 0));
    }
    while p < pixels
        invariant
            p <= pixels,
            pixels == n / 4,
            n == src@.len(),
            n % 4 == 0,
            target == drop_alpha_seq(src@),
            target.len() == 3 * (n as int / 4),
            out@.len() == 3 * p,
            out@ == target.subrange(0, out@.len() as int),
        decreases pixels - p,
    {
        let mut b: usize = 0;
        while b < 3
            invariant
                b <= 3,
                p < pixels,
                pixels == n / 4,
                n == src@.len(),
                n % 4 == 0,
                target == drop_alpha_seq(src@),
                target.len() == 3 * (n as int / 4),
                out@.len() == 3 * p + b,
                out@ == target.subrange(0, out@.len() as int),
            decreases 3 - b,
        {
            proof {
                vstd::arithmetic::div_mod::lemma_fundamental_div_mod(n as int, 4);
                assert(4 * (p as int) + 4 <= n && 3 * (p as int) + (b as int) < 3 * (n as int / 4))
                    by (nonlinear_arith)
                    requires
                        p < pixels,
                        0 <= b < 3,
                        pixels == n as int / 4,
                        n as int == 4 * (n as int / 4),
                ;
                vstd::arithmetic::div_mod::lemma_fundamental_div_mod_converse(
                    3 * (p as int) + (b as int),
                    3,
                    p as int,
                    b as int,
                );
            }
            let byte = src[4 * p + b];
            proof {
                assert(target.subrange(0, out@.len() as int).push(byte) =~= target.subrange(
                    0,
                    out@.len() as int + 1,
                ));
            }
            out.push(byte);
            b = b + 1;
        }
        p = p + 1;
    }
    proof {
        assert(target.subrange(0, target.len() as int) =~= target);
    }
    out
}

/// Produce the bytes to encode for the chosen output format: the crop cut
/// out of the raster, channels reordered, and the alpha channel dropped
/// for the opaque format.
pub fn render_crop_raster(
    src: &Vec<u8>,
    img_w: u32,
    img_h: u32,
    crop: &FinalizedImageCrop,
    fmt: OutputFormat,
) -> (out: Vec<u8>)
    requires
        src@.len() == 4 * (img_w as int) * (img_h as int),
        crop.crop_x + crop.width <= img_w,
        crop.crop_y + crop.height <= img_h,
    ensures
        ({
            let cut = sub_raster_seq(
                src@,
                img_w as int,
                crop.crop_x as int,
                crop.crop_y as int,
                crop.width as int,
                crop.height as int,
            );
            match fmt {
                OutputFormat::Rgba8 => out@ == swap_rb_seq(cut) && out@.len() == 4 * (
                crop.width as int) * (crop.height as int),
                OutputFormat::Rgb8 => out@ == drop_alpha_seq(swap_rb_seq(cut)) && out@.len() == 3
                    * ((crop.width as int) * (crop.height as int)),
            }
        }),
{
    let cropped = extract_sub_raster(src, img_w, img_h, crop);
    proof {
        lemma_pixel_len_mod(crop.width as int, crop.height as int);
    }
    let swapped = swap_rb(&cropped);
    match fmt {
        OutputFormat::Rgba8 => swapped,
        OutputFormat::Rgb8 => {
            proof {
                lemma_pixel_len_mod(crop.width as int, crop.height as int);
            }
            drop_alpha(&swapped)
        },
    }
}

/// The index of the dot starting the final extension: the last `.` in the
/// final path component, scanning from the end and stopping at a `/`.
pub open spec fn ext_dot(p: Seq<u8>) -> Option<int>
    decreases p.len(),
{
    if p.len() == 0 {
        None
    } else if p.last() == 46 {
        Some(p.len() - 1)
    } else if p.last() == 47 {
        None
    } else {
        ext_dot(p.drop_last())
    }
}

/// ASCII lower-casing of one byte.
pub open spec fn to_lower(c: u8) -> u8 {
    if 65 <= c <= 90 {
        (c + 32) as u8
    } else {
        c
    }
}

/// A byte sequence lower-cased.
pub open spec fn lower_seq(s: Seq<u8>) -> Seq<u8> {
    s.map_values(|c: u8| to_lower(c))
}

/// The destination path's extension, lower-cased, names an alpha-capable
/// format (`png` or `webp`).
pub open spec fn alpha_extension(p: Seq<u8>) -> bool {
    match ext_dot(p) {
        Some(i) => {
            let e = lower_seq(p.skip(i + 1));
            e == seq![112u8, 110u8, 103u8] || e == seq![119u8, 101u8, 98u8, 112u8]
        },
        None => false,
    }
}

/// The output format the destination path calls for, decided strictly by
/// its file extension, case-insensitively: `png` and `webp` keep the alpha
/// channel, every other extension gets the opaque layout.
pub open spec fn format_for_path(p: Seq<u8>) -> OutputFormat {
    if alpha_extension(p) {
        OutputFormat::Rgba8
    } else {
        OutputFormat::Rgb8
    }
}

/// Lower-case one ASCII byte.
fn lower_byte(c: u8) -> (r: u8)
    ensures
        r == to_lower(c),
{
    if 65 <= c && c <= 90 {
        c + 32
    } else {
        c
    }
}

/// Scanning from the end past non-dot, non-slash bytes keeps `ext_dot`.
proof fn lemma_ext_dot_step(p: Seq<u8>, j: int)
    requires
        0 < j <= p.len(),
        p[j - 1] != 46,
        p[j - 1] != 47,
    ensures
        ext_dot(p.subrange(0, j)) == ext_dot(p.subrange(0, j - 1)),
{
    assert(p.subrange(0, j).drop_last() =~= p.subrange(0, j - 1));
    assert(p.subrange(0, j).last() == p[j - 1]);
}

/// Decide the output format from the destination path.
pub fn output_format_for_path(path: &[u8]) -> (r: OutputFormat)
    ensures
        r == format_for_path(path@),
{
    let n = path.len();
    let mut j = n;
    proof {
        assert(path@.subrange(0, n as int) =~= path@);
    }
    while j > 0
        invariant
            j <= n,
            n == path@.len(),
            ext_dot(path@) == ext_dot(path@.subrange(0, j as int)),
        decreases j,
    {
        let c = path[j - 1];
        if c == 46 {
            proof {
                assert(path@.subrange(0, j as int).last() == path@[j - 1]);
            }
            proof {
                lemma_ext_dot_found(path@, j as int);
            }
            let ext_len = n - j;
            if ext_len == 3 {
                let a = lower_byte(path[j]);
                let b = lower_byte(path[j + 1]);
                let d = lower_byte(path[j + 2]);
                if a == 112 && b == 110 && d == 103 {
                    proof {
                        assert(lower_seq(path@.skip(j as int)) =~= seq![112u8, 110u8, 103u8]);
                    }
                    return OutputFormat::Rgba8;
                }
                return OutputFormat::Rgb8;
            } else if ext_len == 4 {
                let a = lower_byte(path[j]);
                let b = lower_byte(path[j + 1]);
                let d = lower_byte(path[j + 2]);
                let e = lower_byte(path[j + 3]);
                if a == 119 && b == 101 && d == 98 && e == 112 {
                    proof {
                        assert(lower_seq(path@.skip(j as int)) =~= seq![119u8, 101u8, 98u8,
                            112u8]);
                    }
                    return OutputFormat::Rgba8;
                }
                return OutputFormat::Rgb8;
            } else {
                return OutputFormat::Rgb8;
            }
        }
        if c == 47 {
            proof {
                assert(path@.subrange(0, j as int).last() == path@[j - 1]);
            }
            return OutputFormat::Rgb8;
        }
        proof {
            lemma_ext_dot_step(path@, j as int);
        }
        j = j - 1;
    }
    proof {
        assert(path@.subrange(0, 0) =~= Seq::<u8>::empty());
    }
    OutputFormat::Rgb8
}

/// A dot found at `j - 1` with nothing but plain bytes after it is the
/// extension dot of the whole path.
proof fn lemma_ext_dot_found(p: Seq<u8>, j: int)
    requires
        0 < j <= p.len(),
        p[j - 1] == 46,
        ext_dot(p) == ext_dot(p.subrange(0, j)),
    ensures
        ext_dot(p) == Some(j - 1),
        lower_seq(p.skip(j)).len() == p.len() - j,
        forall|k: int|
            0 <= k < p.len() - j ==> #[trigger] lower_seq(p.skip(j))[k] == to_lower(p[j + k]),
{
    assert(p.subrange(0, j).last() == p[j - 1]);
}

/// The byte sequence `.cropped`.
pub open spec fn cropped_marker() -> Seq<u8> {
    seq![46u8, 99u8, 114u8, 111u8, 112u8, 112u8, 101u8, 100u8]
}

/// The index of the last dot of the path, if it has one.
pub open spec fn last_dot(p: Seq<u8>) -> Option<int>
    decreases p.len(),
{
    if p.len() == 0 {
        None
    } else if p.last() == 46 {
        Some(p.len() - 1)
    } else {
        last_dot(p.drop_last())
    }
}

/// Where `.cropped` is inserted into a source path to form the default
/// destination: before the last dot, or at the end when there is none.
pub open spec fn insert_index(p: Seq<u8>) -> int {
    match last_dot(p) {
        Some(i) => i,
        None => p.len() as int,
    }
}

/// Find where `.cropped` is inserted: just before the last dot, or at the
/// end of a path without one.
fn find_insert_index(path: &[u8]) -> (idx: usize)
    ensures
        idx as int == insert_index(path@),
        idx <= path@.len(),
{
    let n = path.len();
    let mut j = n;
    proof {
        assert(path@.subrange(0, n as int) =~= path@);
    }
    while j > 0
        invariant
            j <= n,
            n == path@.len(),
            last_dot(path@) == last_dot(path@.subrange(0, j as int)),
        decreases j,
    {
        let c = path[j - 1];
        proof {
            assert(path@.subrange(0, j as int).last() == path@[j - 1]);
            assert(path@.subrange(0, j as int).drop_last() =~= path@.subrange(0, j - 1));
        }
        if c == 46 {
            return j - 1;
        }
        j = j - 1;
    }
    proof {
        assert(path@.subrange(0, 0) =~= Seq::<u8>::empty());
    }
    n
}

/// The default destination path: the source path with `.cropped` inserted
/// before its final extension, or appended when it has none.
pub fn default_destination(path: &[u8]) -> (r: Vec<u8>)
    ensures
        r@ == path@.subrange(0, insert_index(path@)) + cropped_marker() + path@.subrange(
            insert_index(path@),
            path@.len() as int,
        ),
{
    let n = path.len();
    let idx = find_insert_index(path);
    let mut out: Vec<u8> = Vec::new();
    let mut i: usize = 0;
    while i < idx
        invariant
            i <= idx,
            idx <= n,
            n == path@.len(),
            out@ == path@.subrange(0, i as int),
        decreases idx - i,
    {
        out.push(path[i]);
        proof {
            assert(path@.subrange(0, i as int).push(path@[i as int]) =~= path@.subrange(
                0,
                i + 1,
            ));
        }
        i = i + 1;
    }
    out.push(46);
    out.push(99);
    out.push(114);
    out.push(111);
    out.push(112);
    out.push(112);
    out.push(101);
    out.push(100);
    proof {
        assert(out@ =~= path@.subrange(0, idx as int) + cropped_marker());
    }
    let mut i2: usize = idx;
    while i2 < n
        invariant
            idx <= i2 <= n,
            n == path@.len(),
            out@ == path@.subrange(0, idx as int) + cropped_marker() + path@.subrange(
                idx as int,
                i2 as int,
            ),
        decreases n - i2,
    {
        out.push(path[i2]);
        proof {
            assert((path@.subrange(0, idx as int) + cropped_marker() + path@.subrange(
                idx as int,
                i2 as int,
            )).push(path@[i2 as int]) =~= path@.subrange(0, idx as int) + cropped_marker()
                + path@.subrange(idx as int, i2 + 1));
        }
        i2 = i2 + 1;
    }
    out
}

/// A raster of whole four-byte pixels has length divisible by four.
proof fn lemma_pixel_len_mod(w: int, h: int)
    requires
        0 <= w,
        0 <= h,
    ensures
        (4 * w * h) % 4 == 0,
        (4 * w * h) / 4 == w * h,
        3 * ((4 * w * h) / 4) == 3 * (w * h),
{
    assert(4 * w * h == (w * h) * 4) by (nonlinear_arith);
    vstd::arithmetic::div_mod::lemma_fundamental_div_mod_converse(4 * w * h, 4, w * h, 0);
}

} // verus!
