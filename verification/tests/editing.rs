use supershot::annotate::Reframe;
use supershot::editing::{crop_rgba, Geometry};
use supershot::raster::{flatten_to_rgb, Remap, Rgb, Rgba, RgbaImage};

fn img(w: u32, h: u32) -> RgbaImage {
    RgbaImage::from_pixel(w, h, Rgba { r: 1, g: 2, b: 3, a: 255 })
}

#[test]
fn crop_clamps_to_the_image_and_never_yields_an_empty_result() {
    let out = crop_rgba(img(100, 100), 90, 90, 50, 50);
    assert_eq!((out.width(), out.height()), (10, 10));

    // Entirely outside: the encoder cannot accept a zero-sized image, so
    // the input is returned untouched rather than degenerate.
    let out = crop_rgba(img(100, 100), 500, 500, 10, 10);
    assert_eq!((out.width(), out.height()), (100, 100));

    // Negative origin.
    let out = crop_rgba(img(100, 100), -20, -20, 50, 50);
    assert_eq!((out.width(), out.height()), (30, 30));

    // Zero-sized request.
    let out = crop_rgba(img(100, 100), 10, 10, 0, 0);
    assert_eq!((out.width(), out.height()), (100, 100));
}

#[test]
fn crop_keeps_the_pixels_of_the_window() {
    let mut source = RgbaImage::new(4, 3);
    for y in 0..3u32 {
        for x in 0..4u32 {
            source.put_pixel(x, y, Rgba { r: x as u8, g: y as u8, b: 0, a: 255 });
        }
    }
    let out = crop_rgba(source, 1, 1, 2, 5);
    assert_eq!((out.width(), out.height()), (2, 2));
    assert_eq!(out.get_pixel(0, 0), Rgba { r: 1, g: 1, b: 0, a: 255 });
    assert_eq!(out.get_pixel(1, 1), Rgba { r: 2, g: 2, b: 0, a: 255 });
}

#[test]
fn quarter_turns_swap_the_axes_and_half_turns_do_not() {
    let quarter = Geometry { rotation: 90, flip_h: false, flip_v: false };
    let out = quarter.apply(&img(400, 200));
    assert_eq!((out.width(), out.height()), (200, 400));

    let half = Geometry { rotation: 180, flip_h: false, flip_v: false };
    let out = half.apply(&img(400, 200));
    assert_eq!((out.width(), out.height()), (400, 200));

    assert!(quarter.changes_geometry());
    assert!(!half.changes_geometry());
    assert!(Geometry { rotation: 270, flip_h: false, flip_v: false }.changes_geometry());
}

#[test]
fn the_identity_edit_state_leaves_the_image_untouched() {
    let source = img(64, 64);
    let out = Geometry::identity().apply(&source);
    assert!(Geometry::identity().is_identity());
    assert_eq!(out.to_raw(), source.to_raw());
}

#[test]
fn grayscale_keeps_the_pixel_type_rgba_for_later_stages() {
    let out = RgbaImage::from_pixel(8, 8, Rgba { r: 200, g: 40, b: 10, a: 255 }).grayscale();

    let px = out.get_pixel(0, 0);
    assert_eq!(px.r, px.g);
    assert_eq!(px.g, px.b);
    assert_eq!(px.a, 255, "alpha must survive the grayscale conversion");
}

#[test]
fn grayscale_uses_the_rec709_luma() {
    // (2126 * 200 + 7152 * 40 + 722 * 10) / 10000 = 71
    let out = RgbaImage::from_pixel(1, 1, Rgba { r: 200, g: 40, b: 10, a: 9 }).grayscale();
    assert_eq!(out.get_pixel(0, 0), Rgba { r: 71, g: 71, b: 71, a: 9 });
}

#[test]
fn invert_and_flips_are_involutions() {
    let source = RgbaImage::from_pixel(8, 8, Rgba { r: 10, g: 200, b: 30, a: 255 });

    let mut inverted = source.duplicate();
    inverted.invert();
    assert_ne!(inverted.to_raw(), source.to_raw());
    let mut back = inverted.duplicate();
    back.invert();
    assert_eq!(back.to_raw(), source.to_raw());

    for edits in [
        Geometry { rotation: 0, flip_h: true, flip_v: false },
        Geometry { rotation: 0, flip_h: false, flip_v: true },
    ] {
        let once = edits.apply(&source);
        let twice = edits.apply(&once);
        assert_eq!(twice.to_raw(), source.to_raw());
    }
}

#[test]
fn a_quarter_turn_moves_the_top_left_pixel_to_the_top_right() {
    let mut source = RgbaImage::new(3, 2);
    source.put_pixel(0, 0, Rgba { r: 255, g: 0, b: 0, a: 255 });
    let out = Geometry { rotation: 90, flip_h: false, flip_v: false }.apply(&source);
    assert_eq!((out.width(), out.height()), (2, 3));
    assert_eq!(out.get_pixel(1, 0), Rgba { r: 255, g: 0, b: 0, a: 255 });
    assert_eq!(out.get_pixel(0, 0), Rgba { r: 0, g: 0, b: 0, a: 0 });
}

#[test]
fn four_quarter_turns_restore_the_image() {
    let mut source = RgbaImage::new(5, 3);
    source.put_pixel(4, 1, Rgba { r: 1, g: 2, b: 3, a: 4 });
    let turn = Geometry { rotation: 90, flip_h: false, flip_v: false };
    let mut img = source.duplicate();
    for _ in 0..4 {
        img = turn.apply(&img);
    }
    assert_eq!(img.to_raw(), source.to_raw());
}

#[test]
fn brighten_saturates_and_keeps_alpha() {
    let source = RgbaImage::from_pixel(2, 2, Rgba { r: 250, g: 10, b: 128, a: 77 });
    assert_eq!(source.brighten(20).get_pixel(1, 1), Rgba { r: 255, g: 30, b: 148, a: 77 });
    assert_eq!(source.brighten(-20).get_pixel(0, 1), Rgba { r: 230, g: 0, b: 108, a: 77 });
}

#[test]
fn rotating_back_and_forth_restores_the_geometry() {
    let mut g = Geometry { rotation: 0, flip_h: false, flip_v: false };
    let first = g.rotate(90);
    assert_eq!(g.rotation, 90);
    let second = g.rotate(-90);
    assert_eq!(g.rotation, 0);
    assert_ne!(first, second);

    // A single active flip reverses the apparent direction of the turn.
    let mut flipped = Geometry { rotation: 0, flip_h: true, flip_v: false };
    assert_eq!(flipped.rotate(90), supershot::annotate::Reframe::Rot270);
    assert_eq!(flipped.rotate(-90), supershot::annotate::Reframe::Rot90);
    assert_eq!(flipped.rotation, 0);

    let mut g = Geometry { rotation: 0, flip_h: false, flip_v: false };
    g.rotate(-90);
    assert_eq!(g.rotation, 270);
    assert_eq!(g.output_size(400, 200), (200, 400));
}

#[test]
fn jpeg_output_is_flattened_over_white() {
    let transparent = RgbaImage::from_pixel(4, 4, Rgba { r: 0, g: 0, b: 0, a: 0 });
    let flat = flatten_to_rgb(&transparent);
    assert_eq!(flat.get_pixel(0, 0), Rgb { r: 255, g: 255, b: 255 });

    let opaque = RgbaImage::from_pixel(4, 4, Rgba { r: 10, g: 20, b: 30, a: 255 });
    let flat = flatten_to_rgb(&opaque);
    assert_eq!(flat.get_pixel(0, 0), Rgb { r: 10, g: 20, b: 30 });
}

#[test]
fn half_transparent_pixels_blend_with_white() {
    // (100 * 128 + 255 * 127) / 255 = 177
    let img = RgbaImage::from_pixel(1, 1, Rgba { r: 100, g: 100, b: 100, a: 128 });
    assert_eq!(flatten_to_rgb(&img).to_raw(), vec![177, 177, 177]);
}

fn numbered(w: u32, h: u32) -> RgbaImage {
    let mut img = RgbaImage::new(w, h);
    for y in 0..h {
        for x in 0..w {
            img.put_pixel(x, y, Rgba { r: x as u8, g: y as u8, b: (y * w + x) as u8, a: 255 });
        }
    }
    img
}

fn as_remap(how: Reframe) -> Remap {
    match how {
        Reframe::Rot90 => Remap::Rot90,
        Reframe::Rot270 => Remap::Rot270,
        Reframe::FlipH => Remap::FlipH,
        Reframe::FlipV => Remap::FlipV,
    }
}

#[test]
fn a_turn_moves_the_shown_image_as_its_reframe_says() {
    let src = numbered(3, 2);
    for (flip_h, flip_v) in [(false, false), (true, false), (false, true), (true, true)] {
        for degrees in [90, -90] {
            let mut g = Geometry { rotation: 180, flip_h, flip_v };
            let shown = g.apply(&src);
            let how = g.rotate(degrees);
            let turned = g.apply(&src);
            assert_eq!(shown.remap(as_remap(how)).to_raw(), turned.to_raw(), "{flip_h} {flip_v} {degrees}");
        }
    }
}

#[test]
fn a_flip_moves_the_shown_image_as_its_reframe_says() {
    let src = numbered(3, 2);
    for horizontal in [true, false] {
        let mut g = Geometry { rotation: 90, flip_h: true, flip_v: false };
        let shown = g.apply(&src);
        let how = g.toggle_flip(horizontal);
        let flipped = g.apply(&src);
        assert_eq!(shown.remap(as_remap(how)).to_raw(), flipped.to_raw());
    }
}
