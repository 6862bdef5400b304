use supershot::annotate::{fill_rect, mean_pixel, pixelate_rect, Tool};
use supershot::raster::{Rgba, RgbaImage};

#[test]
fn only_text_and_numbers_are_placed_by_a_click() {
    assert!(Tool::Text.is_click_placed());
    assert!(Tool::Number.is_click_placed());
    for tool in [Tool::Crop, Tool::Arrow, Tool::Rectangle, Tool::Pixelate, Tool::Blackout, Tool::FreeDraw] {
        assert!(!tool.is_click_placed());
    }
    assert_eq!(Tool::default(), Tool::Crop);
}

#[test]
fn mean_pixel_averages_and_refuses_empty_blocks() {
    assert_eq!(mean_pixel([10, 20, 30, 40], 0), None);
    // 1020 / 2 = 510 does not fit a byte and wraps to 254.
    assert_eq!(mean_pixel([10, 21, 30, 1020], 2), Some(Rgba { r: 5, g: 10, b: 15, a: 254 }));
    assert_eq!(mean_pixel([510, 0, 255, 1020], 4), Some(Rgba { r: 127, g: 0, b: 63, a: 255 }));
}

#[test]
fn pixelate_destroys_the_original_pixels() {
    let mut img = RgbaImage::new(64, 64);
    // A high-contrast checkerboard: averaging any block flattens it.
    for y in 0..64u32 {
        for x in 0..64u32 {
            let on = (x / 2 + y / 2) % 2 == 0;
            let v = if on { 255 } else { 0 };
            img.put_pixel(x, y, Rgba { r: v, g: v, b: v, a: 255 });
        }
    }
    let before = img.to_raw();

    // The block size the save pipeline picks for a 64-pixel region.
    let block = 8;
    pixelate_rect(&mut img, 0, 0, 64, 64, block);

    assert_ne!(img.to_raw(), before, "pixelate left the region untouched");

    // Every block must be uniform, i.e. the checkerboard is gone.
    let corner = img.get_pixel(0, 0);
    for y in 0..block {
        for x in 0..block {
            assert_eq!(img.get_pixel(x, y), corner, "block is not uniform at {},{}", x, y);
        }
    }
    assert_eq!(corner, Rgba { r: 127, g: 127, b: 127, a: 255 });
}

#[test]
fn pixelate_clips_the_last_blocks_to_the_region() {
    let mut img = RgbaImage::new(5, 1);
    for x in 0..5u32 {
        img.put_pixel(x, 0, Rgba { r: (x * 10) as u8, g: 0, b: 0, a: 255 });
    }
    pixelate_rect(&mut img, 1, 0, 5, 1, 3);
    // Blocks [1, 4) and [4, 5): means 20 and 40; pixel 0 is outside.
    assert_eq!(img.get_pixel(0, 0).r, 0);
    assert_eq!(img.get_pixel(1, 0).r, 20);
    assert_eq!(img.get_pixel(3, 0).r, 20);
    assert_eq!(img.get_pixel(4, 0).r, 40);
}

#[test]
fn blackout_writes_an_opaque_solid_region() {
    let mut img = RgbaImage::from_pixel(32, 32, Rgba { r: 200, g: 100, b: 50, a: 255 });
    fill_rect(&mut img, 4, 4, 12, 12, Rgba { r: 0, g: 0, b: 0, a: 255 });

    assert_eq!(img.get_pixel(8, 8), Rgba { r: 0, g: 0, b: 0, a: 255 });
    // Outside the rectangle the image is untouched.
    assert_eq!(img.get_pixel(20, 20), Rgba { r: 200, g: 100, b: 50, a: 255 });
    assert_eq!(img.get_pixel(12, 4), Rgba { r: 200, g: 100, b: 50, a: 255 });
}

#[test]
fn block_sums_add_up_each_channel() {
    let mut img = supershot::raster::RgbaImage::from_pixel(4, 4, supershot::raster::Rgba { r: 1, g: 2, b: 3, a: 4 });
    img.put_pixel(1, 1, supershot::raster::Rgba { r: 11, g: 0, b: 0, a: 255 });
    let (sum, count) = img.block_sums(0, 0, 2, 3);
    assert_eq!(count, 6);
    assert_eq!(sum, [5 + 11, 10, 15, 20 + 255]);
}
