use supershot::raster::{from_premultiplied_bgra, to_premultiplied_bgra, Rgba, RgbaImage};

#[test]
fn surface_bytes_use_the_stride_and_bgra_order() {
    let mut source = RgbaImage::new(7, 3);
    for y in 0..3u32 {
        for x in 0..7u32 {
            source.put_pixel(x, y, Rgba { r: (x * 30) as u8, g: (y * 80) as u8, b: 128, a: 255 });
        }
    }
    // A stride wider than 7 * 4 bytes, as Cairo may pad rows.
    let stride = 32usize;
    let data = to_premultiplied_bgra(&source, stride);
    assert_eq!(data.len(), stride * 3);

    for y in 0..3usize {
        for x in 0..7usize {
            let px = &data[y * stride + x * 4..y * stride + x * 4 + 4];
            let expected = source.get_pixel(x as u32, y as u32);
            assert_eq!(px[0], expected.b, "blue at {x},{y}");
            assert_eq!(px[1], expected.g, "green at {x},{y}");
            assert_eq!(px[2], expected.r, "red at {x},{y}");
            assert_eq!(px[3], 255);
        }
        assert_eq!(&data[y * stride + 28..(y + 1) * stride], &[0, 0, 0, 0]);
    }

    let back = from_premultiplied_bgra(7, 3, stride, &data);
    assert_eq!(back.to_raw(), source.to_raw());
}

#[test]
fn premultiplication_rounds_and_round_trips_alpha() {
    let source = RgbaImage::from_pixel(1, 1, Rgba { r: 255, g: 100, b: 0, a: 128 });
    let data = to_premultiplied_bgra(&source, 4);
    // (255 * 128 + 127) / 255 = 128, (100 * 128 + 127) / 255 = 50
    assert_eq!(data, vec![0, 50, 128, 128]);

    let back = from_premultiplied_bgra(1, 1, 4, &data);
    // (128 * 255 + 64) / 128 = 255, (50 * 255 + 64) / 128 = 100
    assert_eq!(back.get_pixel(0, 0), Rgba { r: 255, g: 100, b: 0, a: 128 });

    let clear = from_premultiplied_bgra(1, 1, 4, &vec![9, 9, 9, 0]);
    assert_eq!(clear.get_pixel(0, 0), Rgba { r: 0, g: 0, b: 0, a: 0 });
}

#[test]
fn raw_bytes_round_trip_and_must_fit_exactly() {
    let bytes: Vec<u8> = (0..24u8).collect();
    let img = RgbaImage::from_raw(3, 2, &bytes).expect("24 bytes hold 3 x 2 pixels");
    assert_eq!(img.get_pixel(1, 1), Rgba { r: 16, g: 17, b: 18, a: 19 });
    assert_eq!(img.to_raw(), bytes);
    assert!(RgbaImage::from_raw(3, 3, &bytes).is_none());
    assert!(RgbaImage::from_raw(2, 2, &bytes).is_none());
}
