use vstd::prelude::*;

use crate::error::AjazzError;
use crate::info::{ImageFormat, ImageMirroring, ImageRotation, Kind};

verus! {

/// An RGB image with 8 bits per channel, stored row by row.
pub struct Pixels {
    /// Width in pixels
    pub width: u32,
    /// Height in pixels
    pub height: u32,
    /// Red, green and blue bytes of each pixel, row by row
    pub data: Vec<u8>,
}

/// Model of an image: its size and bytes.
pub struct PixelsView {
    pub width: u32,
    pub height: u32,
    pub data: Seq<u8>,
}

impl View for Pixels {
    type V = PixelsView;

    open spec fn view(&self) -> PixelsView {
        PixelsView { width: self.width, height: self.height, data: self.data@ }
    }
}

impl PixelsView {
    /// The bytes fit the size: three per pixel.
    pub open spec fn wf(self) -> bool {
        self.data.len() == self.width * self.height * 3
    }

    /// Channel `c` of the pixel at column `x`, row `y`.
    pub open spec fn at(self, x: int, y: int, c: int) -> u8 {
        self.data[(y * self.width + x) * 3 + c]
    }
}

impl Pixels {
    pub open spec fn wf(&self) -> bool {
        self@.wf()
    }
}

/// The image of the given size whose channel `c` at (x, y) is `f(x, y, c)`.
pub open spec fn mapped(width: u32, height: u32, f: spec_fn(int, int, int) -> u8) -> PixelsView {
    PixelsView {
        width,
        height,
        data: Seq::new(
            (width * height * 3) as nat,
            |i: int| f((i / 3) % (width as int), (i / 3) / (width as int), i % 3),
        ),
    }
}

/// Turned a quarter clockwise.
pub open spec fn rotated90(p: PixelsView) -> PixelsView {
    mapped(p.height, p.width, |x: int, y: int, c: int| p.at(y, p.height - 1 - x, c))
}

/// Turned half a turn.
pub open spec fn rotated180(p: PixelsView) -> PixelsView {
    mapped(p.width, p.height, |x: int, y: int, c: int| p.at(p.width - 1 - x, p.height - 1 - y, c))
}

/// Turned three quarters clockwise.
pub open spec fn rotated270(p: PixelsView) -> PixelsView {
    mapped(p.height, p.width, |x: int, y: int, c: int| p.at(p.width - 1 - y, x, c))
}

/// Left and right swapped.
pub open spec fn flipped_h(p: PixelsView) -> PixelsView {
    mapped(p.width, p.height, |x: int, y: int, c: int| p.at(p.width - 1 - x, y, c))
}

/// Top and bottom swapped.
pub open spec fn flipped_v(p: PixelsView) -> PixelsView {
    mapped(p.width, p.height, |x: int, y: int, c: int| p.at(x, p.height - 1 - y, c))
}

/// `top` drawn over `bottom` with its corner at (x, y); what falls outside
/// `bottom` is cut off.
pub open spec fn overlaid(bottom: PixelsView, top: PixelsView, x: int, y: int) -> PixelsView {
    mapped(
        bottom.width,
        bottom.height,
        |px: int, py: int, c: int|
            if x <= px < x + top.width && y <= py < y + top.height {
                top.at(px - x, py - y, c)
            } else {
                bottom.at(px, py, c)
            },
    )
}

/// What the image crate's `resize_to_fill` with nearest-neighbour
/// sampling makes of an image's bytes, for a target size.
pub uninterp spec fn filled(data: Seq<u8>, width: u32, height: u32, nwidth: u32, nheight: u32) -> Seq<u8>;

/// What the image crate's `resize` with nearest-neighbour sampling makes
/// of an image: its new width, height and bytes.
pub uninterp spec fn resized(data: Seq<u8>, width: u32, height: u32, nwidth: u32, nheight: u32) -> (u32, u32, Seq<u8>);

/// What the image crate's `resize_exact` with nearest-neighbour sampling
/// makes of an image's bytes, for a target size.
pub uninterp spec fn stretched(data: Seq<u8>, width: u32, height: u32, nwidth: u32, nheight: u32) -> Seq<u8>;

/// What the image crate's JPEG encoder writes for an RGB image.
pub uninterp spec fn jpeg_of(data: Seq<u8>, width: u32, height: u32) -> Seq<u8>;

/// Relies on `DynamicImage::resize_to_fill`: it scales the image to cover
/// the target and crops the overflow, giving exactly the target size.
#[verifier::external_body]
fn fill_to(p: &Pixels, nwidth: u32, nheight: u32) -> (r: Pixels)
    requires
        p.wf(),
        p.width > 0 && p.height > 0 && nwidth > 0 && nheight > 0,
    ensures
        r.width == nwidth && r.height == nheight,
        r.data@ == filled(p.data@, p.width, p.height, nwidth, nheight),
        r.wf(),
{
    let img = image::RgbImage::from_raw(p.width, p.height, p.data.clone()).unwrap();
    let out = image::DynamicImage::ImageRgb8(img).resize_to_fill(
        nwidth,
        nheight,
        image::imageops::FilterType::Nearest,
    ).into_rgb8();
    Pixels { width: out.width(), height: out.height(), data: out.into_raw() }
}

/// Relies on `DynamicImage::resize`: it scales the image, keeping its
/// aspect ratio, to the largest size that fits the target.
#[verifier::external_body]
fn fit_within(p: &Pixels, nwidth: u32, nheight: u32) -> (r: Pixels)
    requires
        p.wf(),
        p.width > 0 && p.height > 0 && nwidth > 0 && nheight > 0,
    ensures
        (r.width, r.height, r.data@) == resized(p.data@, p.width, p.height, nwidth, nheight),
        r.wf(),
{
    let img = image::RgbImage::from_raw(p.width, p.height, p.data.clone()).unwrap();
    let out = image::DynamicImage::ImageRgb8(img).resize(
        nwidth,
        nheight,
        image::imageops::FilterType::Nearest,
    ).into_rgb8();
    Pixels { width: out.width(), height: out.height(), data: out.into_raw() }
}

/// Relies on `imageops::resize`: it scales the image to exactly the target
/// size, whatever the aspect ratio.
#[verifier::external_body]
fn stretch_to(p: &Pixels, nwidth: u32, nheight: u32) -> (r: Pixels)
    requires
        p.wf(),
        p.width > 0 && p.height > 0 && nwidth > 0 && nheight > 0,
    ensures
        r.width == nwidth && r.height == nheight,
        r.data@ == stretched(p.data@, p.width, p.height, nwidth, nheight),
        r.wf(),
{
    let img = image::RgbImage::from_raw(p.width, p.height, p.data.clone()).unwrap();
    let out = image::imageops::resize(&img, nwidth, nheight, image::imageops::FilterType::Nearest);
    Pixels { width: out.width(), height: out.height(), data: out.into_raw() }
}

/// Relies on `imageops::rotate90`: the pixel at (x, y) moves to
/// (height - 1 - y, x).
#[verifier::external_body]
fn rotate90(p: &Pixels) -> (r: Pixels)
    requires
        p.wf(),
    ensures
        r@ == rotated90(p@),
{
    let img = image::RgbImage::from_raw(p.width, p.height, p.data.clone()).unwrap();
    let out = image::imageops::rotate90(&img);
    Pixels { width: out.width(), height: out.height(), data: out.into_raw() }
}

/// Relies on `imageops::rotate180`: the pixel at (x, y) moves to
/// (width - 1 - x, height - 1 - y).
#[verifier::external_body]
fn rotate180(p: &Pixels) -> (r: Pixels)
    requires
        p.wf(),
    ensures
        r@ == rotated180(p@),
{
    let img = image::RgbImage::from_raw(p.width, p.height, p.data.clone()).unwrap();
    let out = image::imageops::rotate180(&img);
    Pixels { width: out.width(), height: out.height(), data: out.into_raw() }
}

/// Relies on `imageops::rotate270`: the pixel at (x, y) moves to
/// (y, width - 1 - x).
#[verifier::external_body]
fn rotate270(p: &Pixels) -> (r: Pixels)
    requires
        p.wf(),
    ensures
        r@ == rotated270(p@),
{
    let img = image::RgbImage::from_raw(p.width, p.height, p.data.clone()).unwrap();
    let out = image::imageops::rotate270(&img);
    Pixels { width: out.width(), height: out.height(), data: out.into_raw() }
}

/// Relies on `imageops::flip_horizontal`: the pixel at (x, y) moves to
/// (width - 1 - x, y).
#[verifier::external_body]
fn flip_horizontal(p: &Pixels) -> (r: Pixels)
    requires
        p.wf(),
    ensures
        r@ == flipped_h(p@),
{
    let img = image::RgbImage::from_raw(p.width, p.height, p.data.clone()).unwrap();
    let out = image::imageops::flip_horizontal(&img);
    Pixels { width: out.width(), height: out.height(), data: out.into_raw() }
}

/// Relies on `imageops::flip_vertical`: the pixel at (x, y) moves to
/// (x, height - 1 - y).
#[verifier::external_body]
fn flip_vertical(p: &Pixels) -> (r: Pixels)
    requires
        p.wf(),
    ensures
        r@ == flipped_v(p@),
{
    let img = image::RgbImage::from_raw(p.width, p.height, p.data.clone()).unwrap();
    let out = image::imageops::flip_vertical(&img);
    Pixels { width: out.width(), height: out.height(), data: out.into_raw() }
}

/// Relies on `imageops::overlay`: on RGB images each covered pixel of the
/// bottom image is replaced by the top image's pixel.
#[verifier::external_body]
fn overlay(bottom: &Pixels, top: &Pixels, x: i64, y: i64) -> (r: Pixels)
    requires
        bottom.wf(),
        top.wf(),
    ensures
        r@ == overlaid(bottom@, top@, x as int, y as int),
{
    let mut img = image::RgbImage::from_raw(bottom.width, bottom.height, bottom.data.clone()).unwrap();
    let top_img = image::RgbImage::from_raw(top.width, top.height, top.data.clone()).unwrap();
    image::imageops::overlay(&mut img, &top_img, x, y);
    Pixels { width: img.width(), height: img.height(), data: img.into_raw() }
}

/// Relies on `JpegEncoder::encode` writing into memory: it fails only when
/// a side is zero or above 65535, and the bytes depend on the image alone.
#[verifier::external_body]
fn encode_jpeg(p: &Pixels) -> (r: Result<Vec<u8>, image::ImageError>)
    requires
        p.wf(),
    ensures
        r is Ok <==> (1 <= p.width <= 65535 && 1 <= p.height <= 65535),
        r matches Ok(v) ==> v@ == jpeg_of(p.data@, p.width, p.height),
{
    let mut buf: Vec<u8> = Vec::new();
    let mut encoder = image::codecs::jpeg::JpegEncoder::new_with_quality(&mut buf, 90);
    match encoder.encode(&p.data, p.width, p.height, image::ExtendedColorType::Rgb8) {
        Ok(()) => Ok(buf),
        Err(e) => Err(e),
    }
}

/// The image after the format's rotation.
pub open spec fn spec_rotated(rotation: ImageRotation, p: PixelsView) -> PixelsView {
    match rotation {
        ImageRotation::Rot0 => p,
        ImageRotation::Rot90 => rotated90(p),
        ImageRotation::Rot180 => rotated180(p),
        ImageRotation::Rot270 => rotated270(p),
    }
}

/// The image after the format's mirroring.
pub open spec fn spec_mirrored(mirror: ImageMirroring, p: PixelsView) -> PixelsView {
    match mirror {
        ImageMirroring::Unmirrored => p,
        ImageMirroring::X => flipped_h(p),
        ImageMirroring::Y => flipped_v(p),
        ImageMirroring::Both => flipped_v(flipped_h(p)),
    }
}

/// The pixels that a format asks for: the source scaled to cover the
/// target size and cropped, then rotated, then mirrored.
pub open spec fn spec_formatted(format: ImageFormat, p: PixelsView) -> PixelsView {
    let fitted = PixelsView {
        width: format.size.0,
        height: format.size.1,
        data: filled(p.data, p.width, p.height, format.size.0, format.size.1),
    };
    spec_mirrored(format.mirror, spec_rotated(format.rotation, fitted))
}

/// The encoded bytes for a format, or `None` when the encoder refuses the
/// size.
pub open spec fn spec_converted(format: ImageFormat, p: PixelsView) -> Option<Seq<u8>> {
    let q = spec_formatted(format, p);
    if 1 <= q.width <= 65535 && 1 <= q.height <= 65535 {
        Some(jpeg_of(q.data, q.width, q.height))
    } else {
        None
    }
}

fn rotate(rotation: ImageRotation, p: Pixels) -> (r: Pixels)
    requires
        p.wf(),
    ensures
        r@ == spec_rotated(rotation, p@),
        r.wf(),
{
    match rotation {
        ImageRotation::Rot0 => p,
        ImageRotation::Rot90 => rotate90(&p),
        ImageRotation::Rot180 => rotate180(&p),
        ImageRotation::Rot270 => rotate270(&p),
    }
}

fn mirror(axis: ImageMirroring, p: Pixels) -> (r: Pixels)
    requires
        p.wf(),
    ensures
        r@ == spec_mirrored(axis, p@),
        r.wf(),
{
    match axis {
        ImageMirroring::Unmirrored => p,
        ImageMirroring::X => flip_horizontal(&p),
        ImageMirroring::Y => flip_vertical(&p),
        ImageMirroring::Both => {
            let h = flip_horizontal(&p);
            flip_vertical(&h)
        },
    }
}

/// Converts an image into the bytes that a format asks for: scaled to
/// cover the target size and cropped, rotated, mirrored, then encoded.
pub fn convert_image_with_format(format: ImageFormat, image: &Pixels) -> (r: Result<Vec<u8>, AjazzError>)
    requires
        image.wf(),
        image.width > 0 && image.height > 0,
        format.size.0 > 0 && format.size.1 > 0,
    ensures
        r is Ok <==> spec_converted(format, image@) is Some,
        r matches Ok(v) ==> spec_converted(format, image@) == Some(v@),
        r matches Err(e) ==> e is ImageError,
{
    let fitted = fill_to(image, format.size.0, format.size.1);
    let turned = rotate(format.rotation, fitted);
    let ready = mirror(format.mirror, turned);
    match encode_jpeg(&ready) {
        Ok(v) => Ok(v),
        Err(e) => Err(AjazzError::ImageError(e)),
    }
}

/// Converts an image into the bytes for a key of the given kind.
pub fn convert_image(kind: Kind, image: &Pixels) -> (r: Result<Vec<u8>, AjazzError>)
    requires
        image.wf(),
        image.width > 0 && image.height > 0,
    ensures
        r is Ok <==> spec_converted(kind.key_image_format(), image@) is Some,
        r matches Ok(v) ==> spec_converted(kind.key_image_format(), image@) == Some(v@),
        r matches Err(e) ==> e is ImageError,
{
    convert_image_with_format(kind.key_image_format(), image)
}

/// The conversion is deterministic: the same image in the same format
/// gives the same bytes, or fails both times.
pub proof fn lemma_conversion_deterministic(format: ImageFormat, a: PixelsView, b: PixelsView)
    requires
        a == b,
    ensures
        spec_converted(format, a) == spec_converted(format, b),
{
}

/// How a full-screen image is fitted to the screen.
#[derive(Copy, Clone, Debug, PartialEq, Eq, Structural)]
pub enum FitMode {
    /// Scale to fit inside the screen, centred on black
    Contain,
    /// Scale to cover the screen, cropping what overflows
    Cover,
    /// Scale each side to the screen's, ignoring the aspect ratio
    Stretch,
}

impl Default for FitMode {
    fn default() -> (r: FitMode)
        ensures
            r == FitMode::Cover,
    {
        FitMode::Cover
    }
}

/// Where an inner length starts so that it is centred on an outer one,
/// rounded towards the outer start.
pub open spec fn centre_offset(outer: u32, inner: u32) -> int {
    if inner <= outer {
        (outer - inner) / 2
    } else {
        -((inner - outer) / 2)
    }
}

fn centre(outer: u32, inner: u32) -> (r: i64)
    ensures
        r == centre_offset(outer, inner),
{
    if inner <= outer {
        ((outer - inner) / 2) as i64
    } else {
        -(((inner - outer) / 2) as i64)
    }
}

/// A black image.
pub open spec fn black(width: u32, height: u32) -> PixelsView {
    mapped(width, height, |x: int, y: int, c: int| 0u8)
}

/// The image fitted to a screen of the given size.
pub open spec fn spec_fitted(fit: FitMode, p: PixelsView, width: u32, height: u32) -> PixelsView {
    match fit {
        FitMode::Cover => PixelsView {
            width,
            height,
            data: filled(p.data, p.width, p.height, width, height),
        },
        FitMode::Stretch => PixelsView {
            width,
            height,
            data: stretched(p.data, p.width, p.height, width, height),
        },
        FitMode::Contain => {
            let (w, h, d) = resized(p.data, p.width, p.height, width, height);
            overlaid(
                black(width, height),
                PixelsView { width: w, height: h, data: d },
                centre_offset(width, w),
                centre_offset(height, h),
            )
        },
    }
}

/// Bytes with the first and third byte of every three swapped (RGB to BGR).
pub open spec fn swapped_channels(d: Seq<u8>) -> Seq<u8> {
    Seq::new(
        d.len(),
        |i: int|
            if i % 3 == 0 {
                d[i + 2]
            } else if i % 3 == 2 {
                d[i - 2]
            } else {
                d[i]
            },
    )
}

/// The raw bytes that the screen of a kind takes for an image: fitted to
/// the screen, turned a quarter clockwise, flipped both ways, with the
/// channels in blue-green-red order.
pub open spec fn spec_logo_bytes(fit: FitMode, p: PixelsView, width: u32, height: u32) -> Seq<u8> {
    swapped_channels(flipped_v(flipped_h(rotated90(spec_fitted(fit, p, width, height)))).data)
}

/// Swaps the red and blue channel of every pixel.
pub fn swap_channels(data: &mut Vec<u8>)
    requires
        old(data)@.len() % 3 == 0,
    ensures
        final(data)@ == swapped_channels(old(data)@),
{
    let ghost start = data@;
    let mut x: usize = 0;
    while x < data.len()
        invariant
            data@.len() == start.len(),
            start.len() % 3 == 0,
            x % 3 == 0,
            x <= data@.len(),
            forall|i: int| 0 <= i < x ==> data@[i] == swapped_channels(start)[i],
            forall|i: int| x <= i < data@.len() ==> data@[i] == start[i],
        decreases data@.len() - x,
    {
        let first = data[x];
        let third = data[x + 2];
        data.set(x, third);
        data.set(x + 2, first);
        x = x + 3;
    }
    assert(data@ =~= swapped_channels(start));
}

/// Converts an image into the raw bytes for the full screen of a kind;
/// kinds without a screen refuse it.
pub fn convert_logo_image(kind: Kind, image: &Pixels, fit: FitMode) -> (r: Result<Vec<u8>, AjazzError>)
    requires
        image.wf(),
        image.width > 0 && image.height > 0,
    ensures
        kind.lcd_strip_size() is None ==> r matches Err(AjazzError::UnsupportedOperation),
        kind.lcd_strip_size() matches Some((w, h)) ==> (r matches Ok(v) && v@ == spec_logo_bytes(
            fit,
            image@,
            w as u32,
            h as u32,
        )),
{
    let (w, h) = match kind.lcd_strip_size() {
        Some(size) => size,
        None => {
            return Err(AjazzError::UnsupportedOperation);
        },
    };
    let width = w as u32;
    let height = h as u32;
    let fitted = match fit {
        FitMode::Cover => fill_to(image, width, height),
        FitMode::Stretch => stretch_to(image, width, height),
        FitMode::Contain => {
            let small = fit_within(image, width, height);
            assert(w == 854 || w == 800);
            assert(h == 480);
            assert(w * h * 3 <= 854 * 480 * 3) by (nonlinear_arith)
                requires
                    w <= 854,
                    h == 480,
            ;
            let canvas = Pixels { width, height, data: vec![0u8; w * h * 3] };
            assert(canvas@.data =~= black(width, height).data);
            overlay(&canvas, &small, centre(width, small.width), centre(height, small.height))
        },
    };
    let turned = rotate90(&fitted);
    let flipped = flip_horizontal(&turned);
    let flipped = flip_vertical(&flipped);
    let mut data = flipped.data;
    swap_channels(&mut data);
    Ok(data)
}

} // verus!
