use vinylla::{blank_art, AsciiArt, DecodeError, Raster, RasterError, Rgb, SampleError};

fn rgb(r: u8, g: u8, b: u8) -> Rgb {
    Rgb { r, g, b }
}

fn raster_from_fn(width: usize, height: usize, f: impl Fn(usize, usize) -> (u8, u8, u8)) -> Raster {
    let mut data = Vec::new();
    for y in 0..height {
        for x in 0..width {
            let (r, g, b) = f(x, y);
            data.push(r);
            data.push(g);
            data.push(b);
        }
    }
    Raster { width, height, data }
}

#[test]
fn blank_art_shape_and_cells() {
    let art = blank_art(4, 3);
    assert_eq!(art.width, 4);
    assert_eq!(art.height, 3);
    assert_eq!(art.data.len(), 12);
    for y in 0..3 {
        for x in 0..4 {
            let cell = art.cell_at(x, y);
            assert_eq!(cell.glyph, ' ');
            assert_eq!(cell.color, rgb(0, 0, 0));
        }
    }
}

#[test]
fn sample_uniform_color_is_lossless() {
    let img = raster_from_fn(6, 6, |_, _| (10, 20, 30));
    let art = AsciiArt::from_image(&img, 3, 2).unwrap();
    assert_eq!(art.width, 3);
    assert_eq!(art.height, 2);
    for y in 0..2 {
        for x in 0..3 {
            let cell = art.cell_at(x, y);
            assert_eq!(cell.glyph, '\u{2588}');
            assert_eq!(cell.color, rgb(10, 20, 30));
        }
    }
}

#[test]
fn sample_shape_and_determinism() {
    let img = raster_from_fn(10, 7, |x, y| ((x * 17 + y) as u8, (y * 31) as u8, (x ^ y) as u8));
    let a = AsciiArt::from_image(&img, 4, 3).unwrap();
    let b = AsciiArt::from_image(&img, 4, 3).unwrap();
    assert_eq!(a.width, 4);
    assert_eq!(a.height, 3);
    assert_eq!(a.data.len(), 12);
    assert_eq!(a, b);
}

#[test]
fn sample_exact_size_reads_pixel_for_pixel() {
    let img = raster_from_fn(3, 2, |x, y| ((10 * x + y) as u8, (20 * x) as u8, (30 * y) as u8));
    let art = AsciiArt::from_image(&img, 3, 2).unwrap();
    for y in 0..2 {
        for x in 0..3 {
            let cell = art.cell_at(x, y);
            assert_eq!(cell.color, rgb((10 * x + y) as u8, (20 * x) as u8, (30 * y) as u8));
        }
    }
}

#[test]
fn sample_source_too_small_is_an_error() {
    let img = raster_from_fn(2, 2, |_, _| (0, 0, 0));
    assert_eq!(AsciiArt::from_image(&img, 3, 2), Err(SampleError::SourceTooSmall));
    assert_eq!(AsciiArt::from_image(&img, 2, 3), Err(SampleError::SourceTooSmall));
    assert_eq!(AsciiArt::from_image(&img, 0, 2), Err(SampleError::EmptyGrid));
    assert_eq!(AsciiArt::from_image(&img, 2, 0), Err(SampleError::EmptyGrid));
}

#[test]
fn sample_checkerboard_alternates_exactly() {
    // 90 x 60 source onto a 45 x 20 grid: the pixel-to-cell ratio is
    // exactly 2 x 3, and the checkerboard blocks match the cells'
    // source footprints, so sampled cells alternate pure black/white.
    let img = raster_from_fn(90, 60, |px, py| {
        if (px / 2 + py / 3) % 2 == 0 {
            (0, 0, 0)
        } else {
            (255, 255, 255)
        }
    });
    let art = AsciiArt::from_image(&img, 45, 20).unwrap();
    for y in 0..20 {
        for x in 0..45 {
            let cell = art.cell_at(x, y);
            let expected = if (x + y) % 2 == 0 { rgb(0, 0, 0) } else { rgb(255, 255, 255) };
            assert_eq!(cell.color, expected);
        }
    }
}

#[test]
fn encode_decode_round_trip() {
    let img = raster_from_fn(8, 9, |x, y| ((x * 40 + y) as u8, (x + y * 25) as u8, (x * y) as u8));
    let art = AsciiArt::from_image(&img, 4, 3).unwrap();
    let rows = art.to_rows();
    assert_eq!(rows.len(), 3);
    for row in &rows {
        assert_eq!(row.row.len(), 4);
    }
    let back = AsciiArt::from_rows(&rows, 4, 3).unwrap();
    assert_eq!(back, art);
}

#[test]
fn decode_rejects_short_row() {
    let art = blank_art(3, 2);
    let mut rows = art.to_rows();
    rows[1].row.pop();
    assert_eq!(AsciiArt::from_rows(&rows, 3, 2), Err(DecodeError::RowWidth));
}

#[test]
fn decode_rejects_long_row() {
    let art = blank_art(3, 2);
    let mut rows = art.to_rows();
    let extra = rows[0].row[0];
    rows[0].row.push(extra);
    assert_eq!(AsciiArt::from_rows(&rows, 3, 2), Err(DecodeError::RowWidth));
}

#[test]
fn decode_rejects_too_many_rows() {
    let art = blank_art(3, 3);
    let rows = art.to_rows();
    assert_eq!(AsciiArt::from_rows(&rows, 3, 2), Err(DecodeError::RowCount));
}

#[test]
fn decode_fills_missing_rows_with_blanks() {
    let img = raster_from_fn(3, 1, |x, _| ((50 * x) as u8, 7, 9));
    let art = AsciiArt::from_image(&img, 3, 1).unwrap();
    let rows = art.to_rows();
    let back = AsciiArt::from_rows(&rows, 3, 3).unwrap();
    assert_eq!(back.width, 3);
    assert_eq!(back.height, 3);
    for x in 0..3 {
        assert_eq!(back.cell_at(x, 0), art.cell_at(x, 0));
        for y in 1..3 {
            let cell = back.cell_at(x, y);
            assert_eq!(cell.glyph, ' ');
            assert_eq!(cell.color, rgb(0, 0, 0));
        }
    }
}

#[test]
fn raster_from_parts_checks_the_buffer_size() {
    let ok = vinylla::raster_from_parts(2, 1, vec![1, 2, 3, 4, 5, 6]).unwrap();
    assert_eq!(ok.width, 2);
    assert_eq!(ok.height, 1);
    assert_eq!(ok.data, vec![1, 2, 3, 4, 5, 6]);
    assert_eq!(
        vinylla::raster_from_parts(2, 1, vec![1, 2, 3, 4, 5]),
        Err(RasterError::BufferSize)
    );
    assert_eq!(
        vinylla::raster_from_parts(2, 1, vec![1, 2, 3, 4, 5, 6, 7]),
        Err(RasterError::BufferSize)
    );
}

#[test]
fn raster_from_bytes_rejects_garbage() {
    let bytes: Vec<u8> = vec![1, 2, 3, 4, 5];
    assert_eq!(vinylla::raster_from_bytes(&bytes), Err(RasterError::Undecodable));
}

#[test]
fn raster_from_bytes_decodes_a_png() {
    let pixels: Vec<u8> = vec![9, 8, 7, 200, 100, 50];
    let img = image::RgbImage::from_raw(2, 1, pixels.clone()).unwrap();
    let mut bytes: Vec<u8> = Vec::new();
    img.write_to(&mut std::io::Cursor::new(&mut bytes), image::ImageFormat::Png).unwrap();
    let raster = vinylla::raster_from_bytes(&bytes).unwrap();
    assert_eq!(raster.width, 2);
    assert_eq!(raster.height, 1);
    assert_eq!(raster.data, pixels);
    assert_eq!(raster.pixel_at(1, 0), rgb(200, 100, 50));
}
