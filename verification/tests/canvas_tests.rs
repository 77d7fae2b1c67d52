use plotcanvas::{Canvas, CanvasError, Fixed, ImageCanvas, PixelWrite, RgbaStruct};

const WHITE: RgbaStruct = RgbaStruct { r: 255, g: 255, b: 255, a: 255 };
const BLACK: RgbaStruct = RgbaStruct { r: 0, g: 0, b: 0, a: 255 };

fn fx(num: i64, den: i64) -> Fixed {
    Fixed::from_ratio(num, den).unwrap()
}

#[test]
fn blank_fills_every_pixel_with_the_background() {
    let c = ImageCanvas::blank(4, 3, WHITE).unwrap();
    assert_eq!(c.dimensions(), (4, 3));
    for y in 0..3 {
        for x in 0..4 {
            assert_eq!(c.get_pixel(x, y), Some(WHITE));
        }
    }
    assert_eq!(c.get_pixel(4, 0), None);
    assert_eq!(c.get_pixel(0, 3), None);
}

#[test]
fn blank_rejects_zero_dimensions() {
    assert_eq!(ImageCanvas::blank(0, 5, WHITE).err(), Some(CanvasError::InvalidDimensions));
    assert_eq!(ImageCanvas::blank(5, 0, WHITE).err(), Some(CanvasError::InvalidDimensions));
    assert_eq!(ImageCanvas::blank(0, 0, WHITE).err(), Some(CanvasError::InvalidDimensions));
}

#[test]
fn blank_rejects_dimensions_too_large_for_memory() {
    let r = ImageCanvas::blank(u32::MAX, u32::MAX, WHITE);
    assert_eq!(r.err(), Some(CanvasError::InvalidDimensions));
}

#[test]
fn blank_accepts_a_single_pixel() {
    let c = ImageCanvas::blank(1, 1, BLACK).unwrap();
    assert_eq!(c.dimensions(), (1, 1));
    assert_eq!(c.get_pixel(0, 0), Some(BLACK));
}

#[test]
fn draw_flips_the_vertical_axis() {
    let mut c = ImageCanvas::blank(8, 8, WHITE).unwrap();
    // (0.25, 0.75) -> column 2, row (1 - 0.75) * 8 = 2
    c.draw(fx(1, 4), fx(3, 4), BLACK);
    assert_eq!(c.get_pixel(2, 2), Some(BLACK));
    // (0.25, 0.25) -> column 2, row 6
    c.draw(fx(1, 4), fx(1, 4), BLACK);
    assert_eq!(c.get_pixel(2, 6), Some(BLACK));
    assert_eq!(c.get_pixel(2, 5), Some(WHITE));
}

#[test]
fn draw_discards_points_that_round_onto_the_edge() {
    let mut c = ImageCanvas::blank(8, 8, WHITE).unwrap();
    // x = 1.0 lands on column 8, one past the last column.
    c.draw(fx(1, 1), fx(1, 2), BLACK);
    // y = 0.0 lands on row 8, one past the last row.
    c.draw(fx(1, 2), fx(0, 1), BLACK);
    // far outside
    c.draw(fx(-3, 1), fx(1, 2), BLACK);
    c.draw(fx(1, 2), fx(100, 1), BLACK);
    for y in 0..8 {
        for x in 0..8 {
            assert_eq!(c.get_pixel(x, y), Some(WHITE));
        }
    }
    // y = 1.0 is the top row, x = 0.0 the first column.
    c.draw(fx(0, 1), fx(1, 1), BLACK);
    assert_eq!(c.get_pixel(0, 0), Some(BLACK));
}

#[test]
fn draw_rounds_halves_away_from_zero() {
    let mut c = ImageCanvas::blank(8, 8, WHITE).unwrap();
    // 5/16 * 8 = 2.5 rounds to column 3; row (1 - 1/2) * 8 = 4
    c.draw(fx(5, 16), fx(1, 2), BLACK);
    assert_eq!(c.get_pixel(3, 4), Some(BLACK));
    assert_eq!(c.get_pixel(2, 4), Some(WHITE));
    // -1/16 * 8 = -0.5 rounds to column -1, which is discarded.
    c.draw(fx(-1, 16), fx(1, 2), BLACK);
    assert_eq!(c.get_pixel(0, 4), Some(WHITE));
    // -1/32 * 8 = -0.25 rounds to column 0.
    c.draw(fx(-1, 32), fx(1, 2), BLACK);
    assert_eq!(c.get_pixel(0, 4), Some(BLACK));
}

#[test]
fn draw_blended_mixes_by_alpha() {
    let mut c = ImageCanvas::blank(4, 4, WHITE).unwrap();
    let half = RgbaStruct { r: 0, g: 0, b: 0, a: 128 };
    c.draw_blended(fx(1, 4), fx(1, 2), half);
    assert_eq!(c.get_pixel(1, 2), Some(RgbaStruct { r: 127, g: 127, b: 127, a: 255 }));
    // blending again darkens further: round(127 * 127 / 255) = 63
    c.draw_blended(fx(1, 4), fx(1, 2), half);
    assert_eq!(c.get_pixel(1, 2), Some(RgbaStruct { r: 63, g: 63, b: 63, a: 255 }));
}

#[test]
fn draw_blended_with_extreme_alpha() {
    let mut c = ImageCanvas::blank(4, 4, WHITE).unwrap();
    c.draw_blended(fx(1, 2), fx(1, 2), RgbaStruct { r: 0, g: 0, b: 0, a: 0 });
    assert_eq!(c.get_pixel(2, 2), Some(WHITE));
    c.draw_blended(fx(1, 2), fx(1, 2), BLACK);
    assert_eq!(c.get_pixel(2, 2), Some(BLACK));
}

#[test]
fn over_composites_each_channel() {
    let src = RgbaStruct { r: 10, g: 200, b: 30, a: 100 };
    let dst = RgbaStruct { r: 250, g: 20, b: 100, a: 50 };
    assert_eq!(src.over(dst), RgbaStruct { r: 156, g: 91, b: 73, a: 130 });
    let red = RgbaStruct { r: 255, g: 0, b: 0, a: 128 };
    let clear_blue = RgbaStruct { r: 0, g: 0, b: 255, a: 0 };
    assert_eq!(red.over(clear_blue), RgbaStruct { r: 128, g: 0, b: 127, a: 128 });
}

#[test]
fn with_alpha_and_to_pixel() {
    let c = RgbaStruct { r: 1, g: 2, b: 3, a: 4 };
    assert_eq!(c.to_pixel(), [1, 2, 3, 4]);
    assert_eq!(c.with_alpha(9), RgbaStruct { r: 1, g: 2, b: 3, a: 9 });
}

#[test]
fn plot_all_applies_writes_in_order() {
    let mut c = ImageCanvas::blank(4, 4, WHITE).unwrap();
    let red = RgbaStruct { r: 255, g: 0, b: 0, a: 255 };
    let ws = vec![
        PixelWrite { x: 1, y: 3, color: BLACK },
        PixelWrite { x: 1, y: 3, color: red },
        PixelWrite { x: 2, y: 0, color: BLACK },
        PixelWrite { x: -1, y: 2, color: BLACK },
        PixelWrite { x: 3, y: 4, color: BLACK },
    ];
    c.plot_all(&ws, false);
    // device row 3 is storage row 4 - 3 = 1
    assert_eq!(c.get_pixel(1, 1), Some(red));
    // device row 4 is storage row 0; device row 0 is below the canvas
    assert_eq!(c.get_pixel(3, 0), Some(BLACK));
    let mut dark = 0;
    for y in 0..4 {
        for x in 0..4 {
            if c.get_pixel(x, y) != Some(WHITE) {
                dark += 1;
            }
        }
    }
    assert_eq!(dark, 2);
}

#[test]
fn to_rgba_bytes_lists_rows_from_the_top() {
    let mut c = ImageCanvas::blank(3, 2, WHITE).unwrap();
    let color = RgbaStruct { r: 1, g: 2, b: 3, a: 4 };
    // column 2, storage row 1
    c.plot_all(&vec![PixelWrite { x: 2, y: 1, color }], false);
    let bytes = c.to_rgba_bytes();
    assert_eq!(bytes.len(), 24);
    let at = 4 * (1 * 3 + 2);
    assert_eq!(&bytes[at..at + 4], &[1, 2, 3, 4]);
    for (i, b) in bytes.iter().enumerate() {
        if i < at || i >= at + 4 {
            assert_eq!(*b, 255);
        }
    }
}
