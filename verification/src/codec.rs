//! What the `image` crate computes for the pipeline: its PNG and JPEG codecs,
//! its alpha compositing and its resampling.
//!
//! Each of these results takes a file-format specification or a
//! floating-point filter to state, so each is given a name; the functions
//! that hand pixels over, and what they do with the answer, are stated over
//! those names.

use image::ImageEncoder;
use vstd::prelude::*;

verus! {

/// What `image::ImageFormat::from_path` makes of the file name `path` and,
/// for the format it names, `image::load_from_memory_with_format` followed by
/// `DynamicImage::to_rgba8` makes of the file's `bytes`: width, height and
/// the RGBA bytes row by row, or the error's text.
pub uninterp spec fn decoded_rgba(path: Seq<char>, bytes: Seq<u8>) -> Result<(u32, u32, Seq<u8>), Seq<char>>;

/// The bytes `image::codecs::png::PngEncoder` writes for a `width` x `height`
/// RGBA image, or the error's text.
pub uninterp spec fn png_bytes(width: u32, height: u32, rgba: Seq<u8>) -> Result<Seq<u8>, Seq<char>>;

/// The bytes `image::codecs::jpeg::JpegEncoder` writes at `quality` for a
/// `width` x `height` RGB image, or the error's text.
pub uninterp spec fn jpeg_bytes(width: u32, height: u32, rgb: Seq<u8>, quality: u8) -> Result<
    Seq<u8>,
    Seq<char>,
>;

/// Calls `image::ImageFormat::from_path`, which takes the format from the
/// file name's extension as `image::open` does, then, for that format,
/// `image::load_from_memory_with_format` on the file's `bytes`; the image is
/// converted with `DynamicImage::to_rgba8` and handed out as its width,
/// height and `ImageBuffer::into_raw` bytes. An error, an unknown extension
/// among them, is rendered with `to_string`. The result is the one named
/// `decoded_rgba`; that the bytes number four per pixel is what `to_rgba8`
/// builds.
#[verifier::external_body]
pub(crate) fn decode_rgba(path: &str, bytes: &[u8]) -> (out: Result<(u32, u32, Vec<u8>), String>)
    ensures
        match out {
            Ok((w, h, data)) => decoded_rgba(path@, bytes@) == Ok::<(u32, u32, Seq<u8>), Seq<char>>(
                (w, h, data@),
            ) && data@.len() == 4 * (w * h),
            Err(e) => decoded_rgba(path@, bytes@) == Err::<(u32, u32, Seq<u8>), Seq<char>>(e@),
        },
{
    match image::ImageFormat::from_path(path) {
        Ok(format) => match image::load_from_memory_with_format(bytes, format) {
            Ok(img) => {
                let rgba = img.to_rgba8();
                Ok((rgba.width(), rgba.height(), rgba.into_raw()))
            },
            Err(e) => Err(e.to_string()),
        },
        Err(e) => Err(e.to_string()),
    }
}

/// Calls `ImageEncoder::write_image` of `image::codecs::png::PngEncoder::new`
/// on an in-memory buffer, with `ExtendedColorType::Rgba8`; an error is
/// rendered with `to_string`. The result is the one named `png_bytes`.
/// `write_image` panics unless there are four bytes per pixel, which
/// `requires` states.
#[verifier::external_body]
pub(crate) fn encode_png(width: u32, height: u32, rgba: &[u8]) -> (out: Result<Vec<u8>, String>)
    requires
        rgba@.len() == 4 * (width * height),
    ensures
        match out {
            Ok(b) => png_bytes(width, height, rgba@) == Ok::<Seq<u8>, Seq<char>>(b@),
            Err(e) => png_bytes(width, height, rgba@) == Err::<Seq<u8>, Seq<char>>(e@),
        },
{
    let mut buf: Vec<u8> = Vec::new();
    let encoder = image::codecs::png::PngEncoder::new(&mut buf);
    match encoder.write_image(rgba, width, height, image::ExtendedColorType::Rgba8) {
        Ok(()) => Ok(buf),
        Err(e) => Err(e.to_string()),
    }
}

/// Calls `ImageEncoder::write_image` of
/// `image::codecs::jpeg::JpegEncoder::new_with_quality` on an in-memory
/// buffer, with `ExtendedColorType::Rgb8`; an error is rendered with
/// `to_string`. The result is the one named `jpeg_bytes`. `write_image`
/// panics unless there are three bytes per pixel, which `requires` states.
#[verifier::external_body]
pub(crate) fn encode_jpeg(width: u32, height: u32, rgb: &[u8], quality: u8) -> (out: Result<
    Vec<u8>,
    String,
>)
    requires
        rgb@.len() == 3 * (width * height),
    ensures
        match out {
            Ok(b) => jpeg_bytes(width, height, rgb@, quality) == Ok::<Seq<u8>, Seq<char>>(b@),
            Err(e) => jpeg_bytes(width, height, rgb@, quality) == Err::<Seq<u8>, Seq<char>>(e@),
        },
{
    let mut buf: Vec<u8> = Vec::new();
    let encoder = image::codecs::jpeg::JpegEncoder::new_with_quality(&mut buf, quality);
    match encoder.write_image(rgb, width, height, image::ExtendedColorType::Rgb8) {
        Ok(()) => Ok(buf),
        Err(e) => Err(e.to_string()),
    }
}

/// The RGBA bytes of a `width` x `height` image after
/// `image::imageops::overlay` has blended a `top_width` x `top_height`
/// layer over it at the origin.
pub uninterp spec fn overlaid_rgba(
    width: u32,
    height: u32,
    bottom: Seq<u8>,
    top_width: u32,
    top_height: u32,
    top: Seq<u8>,
) -> Seq<u8>;

/// The RGBA bytes `image::imageops::resize` with `FilterType::Triangle`
/// makes of a `width` x `height` image resampled to `nwidth` x `nheight`.
pub uninterp spec fn resized_rgba(width: u32, height: u32, data: Seq<u8>, nwidth: u32, nheight: u32) -> Seq<u8>;

/// Calls `image::imageops::overlay` with the layer at the origin, both
/// images built with `ImageBuffer::from_raw` (which accepts four bytes per
/// pixel, as `requires` states) and the result handed out by `into_raw`.
/// The result is the one named `overlaid_rgba`; that the bottom image keeps
/// its size is what `overlay` does, writing pixels in place.
#[verifier::external_body]
pub(crate) fn overlay_rgba(
    width: u32,
    height: u32,
    bottom: Vec<u8>,
    top_width: u32,
    top_height: u32,
    top: Vec<u8>,
) -> (out: Vec<u8>)
    requires
        bottom@.len() == 4 * (width * height),
        top@.len() == 4 * (top_width * top_height),
    ensures
        out@ == overlaid_rgba(width, height, bottom@, top_width, top_height, top@),
        out@.len() == bottom@.len(),
{
    let mut base = image::RgbaImage::from_raw(width, height, bottom).unwrap();
    let layer = image::RgbaImage::from_raw(top_width, top_height, top).unwrap();
    image::imageops::overlay(&mut base, &layer, 0, 0);
    base.into_raw()
}

/// Calls `image::imageops::resize` with `FilterType::Triangle` on an image
/// built with `ImageBuffer::from_raw` (four bytes per pixel, as `requires`
/// states) and hands out the result's `into_raw` bytes, four per pixel of the
/// new size. The result is the one named `resized_rgba`. `resize` allocates
/// the result, four bytes per pixel of the new size, and an intermediate
/// image of the old width and the new height, four `f32` per pixel; a buffer
/// over `isize::MAX` bytes would panic, which `requires` rules out.
#[verifier::external_body]
pub(crate) fn resize_triangle(width: u32, height: u32, data: Vec<u8>, nwidth: u32, nheight: u32) -> (out: Vec<u8>)
    requires
        data@.len() == 4 * (width * height),
        4 * (nwidth * nheight) <= isize::MAX,
        16 * (width * nheight) <= isize::MAX,
    ensures
        out@ == resized_rgba(width, height, data@, nwidth, nheight),
        out@.len() == 4 * (nwidth * nheight),
{
    let img = image::RgbaImage::from_raw(width, height, data).unwrap();
    image::imageops::resize(&img, nwidth, nheight, image::imageops::FilterType::Triangle).into_raw()
}

} // verus!
