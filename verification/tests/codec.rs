use supershot::capture::{encode, encode_image, CaptureOptions};
use supershot::editing::{image_from_decoded, load};
use supershot::raster::{Rgba, RgbaImage};

fn image(w: u32, h: u32) -> RgbaImage {
    RgbaImage::from_pixel(w, h, Rgba { r: 10, g: 20, b: 30, a: 255 })
}

#[test]
fn encoding_writes_a_readable_file_in_both_formats() {
    for (format_idx, name) in [(0u32, "out.png"), (1, "out.jpg")] {
        let opts = CaptureOptions { format_idx, ..CaptureOptions::default() };
        let bytes = encode(&image(32, 32), &opts).expect("encoding must succeed");
        let decoded = load(name, &bytes).expect("the encoded file must be readable");
        assert_eq!((decoded.width(), decoded.height()), (32, 32));
    }
}

#[test]
fn png_round_trips_every_pixel_and_jpeg_drops_alpha() {
    let mut img = RgbaImage::new(3, 2);
    img.put_pixel(0, 0, Rgba { r: 255, g: 0, b: 0, a: 255 });
    img.put_pixel(2, 1, Rgba { r: 1, g: 2, b: 3, a: 128 });
    let png = encode_image(&img, false, 90).expect("png encoding must succeed");
    assert_eq!(&png[1..4], b"PNG");
    let back = load("a.png", &png).expect("png must decode");
    assert_eq!(back.to_raw(), img.to_raw());

    let jpeg = encode_image(&img, true, 90).expect("jpeg encoding must succeed");
    assert_eq!(&jpeg[0..2], &[0xFF, 0xD8]);
    let back = load("a.jpeg", &jpeg).expect("jpeg must decode");
    assert!(back.to_raw().chunks(4).all(|p| p[3] == 255), "jpeg carried alpha");
}

#[test]
fn bytes_that_are_no_image_are_refused() {
    assert!(load("x.png", b"not an image").is_err());
    assert!(load("x.png", &[]).is_err());
}

#[test]
fn a_decoded_answer_becomes_the_image_it_describes() {
    let img = image_from_decoded(Ok((1, 2, vec![1, 2, 3, 4, 5, 6, 7, 8]))).expect("sizes agree");
    assert_eq!(img.get_pixel(0, 1), Rgba { r: 5, g: 6, b: 7, a: 8 });
    assert!(image_from_decoded(Ok((2, 2, vec![0; 4]))).is_err());
    assert_eq!(image_from_decoded(Err("bad".to_string())).err(), Some("bad".to_string()));
}

#[test]
fn encoding_an_empty_image_reports_the_encoder_error() {
    let opts = CaptureOptions { format_idx: 1, ..CaptureOptions::default() };
    let err = encode(&RgbaImage::new(0, 0), &opts).expect_err("a jpeg needs at least one pixel");
    assert!(err.contains(": "), "unexpected error: {err}");
}

#[test]
fn an_opaque_layer_replaces_and_a_transparent_one_keeps() {
    let mut img = RgbaImage::from_pixel(4, 3, Rgba { r: 10, g: 20, b: 30, a: 255 });
    let mut layer = RgbaImage::new(2, 2);
    layer.put_pixel(1, 1, Rgba { r: 200, g: 0, b: 0, a: 255 });
    supershot::annotate::composite(&mut img, &layer);
    assert_eq!((img.width(), img.height()), (4, 3));
    assert_eq!(img.get_pixel(1, 1), Rgba { r: 200, g: 0, b: 0, a: 255 });
    assert_eq!(img.get_pixel(0, 0), Rgba { r: 10, g: 20, b: 30, a: 255 });
    assert_eq!(img.get_pixel(3, 2), Rgba { r: 10, g: 20, b: 30, a: 255 });
}

#[test]
fn downscaling_a_uniform_image_keeps_its_colour() {
    let img = RgbaImage::from_pixel(8, 4, Rgba { r: 9, g: 99, b: 199, a: 255 });
    let small = supershot::editing::downscale(&img, 4, 2);
    assert_eq!((small.width(), small.height()), (4, 2));
    assert!(small.to_raw().chunks(4).all(|p| p == [9, 99, 199, 255]));
}

#[test]
fn the_format_is_taken_from_the_extension() {
    let png = encode_image(&image(4, 4), false, 90).expect("png encoding must succeed");
    assert!(load("/tmp/shot.PNG", &png).is_ok());
    // PNG bytes under a JPEG name are read as JPEG, and fail.
    assert!(load("/tmp/shot.jpg", &png).is_err());
    // No extension, or one naming no format, gives no decoder at all.
    assert!(load("/tmp/shot", &png).is_err());
    assert!(load("/tmp/shot.txt", &png).is_err());
}
