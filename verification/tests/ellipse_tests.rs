use plotcanvas::{
    draw_ellipse, Canvas, Ellipse2D, Fixed, ImageCanvas, PixelWrite, RgbaStruct,
};

const WHITE: RgbaStruct = RgbaStruct { r: 255, g: 255, b: 255, a: 255 };
const BLACK: RgbaStruct = RgbaStruct { r: 0, g: 0, b: 0, a: 255 };

fn fx(num: i64, den: i64) -> Fixed {
    Fixed::from_ratio(num, den).unwrap()
}

/// The ellipse whose corners land on the given pixels of an 8 by 8 device.
fn on_eight(x0: i64, y0: i64, x1: i64, y1: i64) -> Ellipse2D {
    Ellipse2D { x0: fx(x0, 8), y0: fx(y0, 8), x1: fx(x1, 8), y1: fx(y1, 8) }
}

fn points(ws: &[PixelWrite]) -> Vec<(i64, i64)> {
    ws.iter().map(|w| (w.x, w.y)).collect()
}

#[test]
fn small_circle() {
    let ws = draw_ellipse(&on_eight(2, 2, 6, 6), (8, 8), BLACK);
    assert_eq!(
        points(&ws),
        vec![
            (6, 4),
            (2, 4),
            (2, 4),
            (6, 4),
            (6, 5),
            (2, 5),
            (2, 3),
            (6, 3),
            (5, 6),
            (3, 6),
            (3, 2),
            (5, 2),
            (4, 6),
            (4, 6),
            (4, 2),
            (4, 2),
        ]
    );
    for w in &ws {
        assert_eq!(w.color, BLACK);
    }
}

#[test]
fn corners_may_come_in_any_order() {
    let reference = draw_ellipse(&on_eight(2, 2, 6, 6), (8, 8), BLACK);
    assert_eq!(draw_ellipse(&on_eight(6, 6, 2, 2), (8, 8), BLACK), reference);
    assert_eq!(draw_ellipse(&on_eight(6, 2, 2, 6), (8, 8), BLACK), reference);
    assert_eq!(draw_ellipse(&on_eight(2, 6, 6, 2), (8, 8), BLACK), reference);
}

#[test]
fn odd_height_is_centred_between_two_rows() {
    let ws = draw_ellipse(&on_eight(1, 1, 6, 4), (8, 8), BLACK);
    assert_eq!(
        points(&ws),
        vec![
            (6, 3),
            (1, 3),
            (1, 2),
            (6, 2),
            (5, 4),
            (2, 4),
            (2, 1),
            (5, 1),
            (4, 4),
            (3, 4),
            (3, 1),
            (4, 1),
        ]
    );
}

#[test]
fn flat_ellipse() {
    let ws = draw_ellipse(&on_eight(0, 3, 7, 4), (8, 8), BLACK);
    assert_eq!(
        points(&ws),
        vec![
            (7, 4),
            (0, 4),
            (0, 3),
            (7, 3),
            (6, 4),
            (1, 4),
            (1, 3),
            (6, 3),
            (5, 4),
            (2, 4),
            (2, 3),
            (5, 3),
            (4, 4),
            (3, 4),
            (3, 3),
            (4, 3),
        ]
    );
}

#[test]
fn narrow_ellipse_gets_its_tips_from_the_finishing_loop() {
    let ws = draw_ellipse(&on_eight(3, 1, 4, 6), (8, 8), BLACK);
    assert_eq!(
        points(&ws),
        vec![
            (4, 4),
            (3, 4),
            (3, 3),
            (4, 3),
            (3, 4),
            (4, 4),
            (3, 3),
            (4, 3),
            (3, 5),
            (4, 5),
            (3, 2),
            (4, 2),
        ]
    );
}

#[test]
fn box_without_width_is_a_vertical_stroke() {
    let ws = draw_ellipse(&on_eight(3, 1, 3, 5), (8, 8), BLACK);
    assert_eq!(
        points(&ws),
        vec![
            (3, 3),
            (3, 3),
            (3, 3),
            (3, 3),
            (3, 3),
            (3, 3),
            (3, 3),
            (3, 3),
            (3, 4),
            (3, 4),
            (3, 2),
            (3, 2),
        ]
    );
}

#[test]
fn box_without_height_is_a_horizontal_stroke() {
    let ws = draw_ellipse(&on_eight(1, 3, 5, 3), (8, 8), BLACK);
    assert_eq!(
        points(&ws),
        vec![
            (5, 3),
            (1, 3),
            (1, 3),
            (5, 3),
            (4, 3),
            (2, 3),
            (2, 3),
            (4, 3),
            (3, 3),
            (3, 3),
            (3, 3),
            (3, 3),
        ]
    );
}

#[test]
fn box_without_area_is_a_single_pixel() {
    let ws = draw_ellipse(&on_eight(3, 3, 3, 3), (8, 8), BLACK);
    assert_eq!(points(&ws), vec![(3, 3), (3, 3), (3, 3), (3, 3)]);
    // also when the corner rounds to zero
    let origin = Ellipse2D { x0: fx(0, 1), y0: fx(0, 1), x1: fx(0, 1), y1: fx(0, 1) };
    assert_eq!(points(&draw_ellipse(&origin, (512, 512), BLACK)), vec![(0, 0); 4]);
}

#[test]
fn extremes_of_the_tall_ellipse_on_a_512_canvas() {
    let e = Ellipse2D { x0: fx(1, 10), y0: fx(1, 10), x1: fx(1, 2), y1: fx(9, 10) };
    let ws = draw_ellipse(&e, (512, 512), BLACK);
    assert_eq!(ws.len(), 920);
    let xs: Vec<i64> = ws.iter().map(|w| w.x).collect();
    let ys: Vec<i64> = ws.iter().map(|w| w.y).collect();
    // round(0.1 * 512) = 51 and round(0.5 * 512) = 256
    assert_eq!(*xs.iter().min().unwrap(), 51);
    assert_eq!(*xs.iter().max().unwrap(), 256);
    assert_eq!(*ys.iter().min().unwrap(), 51);
    assert_eq!(*ys.iter().max().unwrap(), 461);
    assert_eq!(
        points(&ws[..8]),
        vec![
            (256, 256),
            (51, 256),
            (51, 256),
            (256, 256),
            (256, 257),
            (51, 257),
            (51, 255),
            (256, 255),
        ]
    );
}

#[test]
fn writes_stay_inside_the_device_rectangle() {
    let boxes = [
        Ellipse2D { x0: fx(1, 10), y0: fx(1, 10), x1: fx(1, 2), y1: fx(9, 10) },
        Ellipse2D { x0: fx(9, 10), y0: fx(1, 3), x1: fx(-1, 10), y1: fx(1, 4) },
        Ellipse2D { x0: fx(1, 3), y0: fx(1, 3), x1: fx(1, 3), y1: fx(2, 3) },
        Ellipse2D { x0: fx(-2, 1), y0: fx(-1, 1), x1: fx(3, 1), y1: fx(2, 1) },
    ];
    for e in boxes {
        for (w, h) in [(512u32, 512u32), (16, 16), (7, 13), (1, 1)] {
            let (x0, x1) = (e.x0.to_device(w), e.x1.to_device(w));
            let (y0, y1) = (e.y0.to_device(h), e.y1.to_device(h));
            let ws = draw_ellipse(&e, (w, h), BLACK);
            assert!(ws.len() >= 4);
            assert_eq!(ws[0].x, x0.max(x1));
            assert_eq!(ws[1].x, x0.min(x1));
            for wr in ws {
                assert!(x0.min(x1) <= wr.x && wr.x <= x0.max(x1));
                assert!(y0.min(y1) <= wr.y && wr.y <= y0.max(y1));
            }
        }
    }
}

#[test]
fn draw_ellipse2d_replaces_pixels() {
    let mut c = ImageCanvas::blank(8, 8, WHITE).unwrap();
    let translucent = RgbaStruct { r: 9, g: 8, b: 7, a: 1 };
    c.draw_ellipse2d(&on_eight(2, 2, 6, 6), translucent);
    let mut dark = Vec::new();
    for x in 0..8 {
        for y in 0..8 {
            let p = c.get_pixel(x, y).unwrap();
            if p != WHITE {
                assert_eq!(p, translucent);
                dark.push((x, y));
            }
        }
    }
    assert_eq!(
        dark,
        vec![
            (2, 3),
            (2, 4),
            (2, 5),
            (3, 2),
            (3, 6),
            (4, 2),
            (4, 6),
            (5, 2),
            (5, 6),
            (6, 3),
            (6, 4),
            (6, 5),
        ]
    );
}

#[test]
fn ellipse_off_the_canvas_leaves_it_unchanged() {
    let mut c = ImageCanvas::blank(8, 8, WHITE).unwrap();
    let e = Ellipse2D { x0: fx(2, 1), y0: fx(2, 1), x1: fx(3, 1), y1: fx(3, 1) };
    c.draw_ellipse2d(&e, BLACK);
    assert_eq!(c.to_rgba_bytes(), vec![255u8; 8 * 8 * 4]);
}

#[test]
fn corners_at_the_ends_of_the_range() {
    let lo = Fixed::from_raw(i32::MIN);
    let hi = Fixed::from_raw(i32::MAX);
    let e = Ellipse2D { x0: lo, y0: lo, x1: hi, y1: hi };
    let ws = points(&draw_ellipse(&e, (4, 4), BLACK));
    assert_eq!(ws.len(), 2900);
    assert_eq!(&ws[..4], &[(512, 0), (-512, 0), (-512, 0), (512, 0)]);
    assert_eq!(&ws[2896..], &[(0, 512), (0, 512), (0, -512), (0, -512)]);
    let mut c = ImageCanvas::blank(4, 4, WHITE).unwrap();
    c.draw_ellipse2d(&e, BLACK);
    assert_eq!(c.to_rgba_bytes(), vec![255u8; 4 * 4 * 4]);
}
