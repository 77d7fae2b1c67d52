use plotcanvas::{
    plot3d_scatter, points_from_buffer, subroutine1, AxesRotation, Canvas, CanvasError, Ellipse2D,
    Fixed, ImageCanvas, Line2D, RgbaStruct, Vector3D,
};

const WHITE: RgbaStruct = RgbaStruct { r: 255, g: 255, b: 255, a: 255 };
const BLACK: RgbaStruct = RgbaStruct { r: 0, g: 0, b: 0, a: 255 };

fn fx(num: i64, den: i64) -> Fixed {
    Fixed::from_ratio(num, den).unwrap()
}

fn demo_buffer() -> Vec<Fixed> {
    vec![
        fx(1, 5),
        fx(7, 10),
        fx(0, 1),
        fx(1, 5),
        fx(7, 10),
        fx(1, 2),
        fx(1, 5),
        fx(7, 10),
        fx(1, 1),
    ]
}

#[test]
fn demonstration_plot() {
    let c = subroutine1();
    assert_eq!(c.dimensions(), (512, 512));
    let bytes = c.to_rgba_bytes();
    let dark = bytes.chunks(4).filter(|p| p != &[255, 255, 255, 255]).count();
    let red: u64 = bytes.chunks(4).map(|p| p[0] as u64).sum();
    assert_eq!((dark, red), (1733, 66509081));

    let mut by_hand = ImageCanvas::blank(512, 512, WHITE).unwrap();
    by_hand.draw_line2d(&Line2D { x0: fx(1, 10), y0: fx(1, 5), x1: fx(9, 10), y1: fx(7, 10) }, BLACK);
    by_hand.draw_ellipse2d(
        &Ellipse2D { x0: fx(1, 10), y0: fx(1, 10), x1: fx(1, 2), y1: fx(9, 10) },
        BLACK,
    );
    assert_eq!(bytes, by_hand.to_rgba_bytes());
}

#[test]
fn points_from_buffer_groups_by_three() {
    let ps = points_from_buffer(&demo_buffer(), 3).unwrap();
    assert_eq!(
        ps,
        vec![
            Vector3D { x: fx(1, 5), y: fx(7, 10), z: fx(0, 1) },
            Vector3D { x: fx(1, 5), y: fx(7, 10), z: fx(1, 2) },
            Vector3D { x: fx(1, 5), y: fx(7, 10), z: fx(1, 1) },
        ]
    );
    assert_eq!(points_from_buffer(&[], 0), Ok(Vec::new()));
}

#[test]
fn points_from_buffer_rejects_a_length_mismatch() {
    let buffer = demo_buffer();
    assert_eq!(points_from_buffer(&buffer, 2), Err(CanvasError::InvalidBuffer));
    assert_eq!(points_from_buffer(&buffer, 4), Err(CanvasError::InvalidBuffer));
    assert_eq!(points_from_buffer(&buffer[..8], 3), Err(CanvasError::InvalidBuffer));
    assert_eq!(points_from_buffer(&buffer[..8], 2), Err(CanvasError::InvalidBuffer));
    assert_eq!(points_from_buffer(&[], 1), Err(CanvasError::InvalidBuffer));
    assert_eq!(points_from_buffer(&buffer, usize::MAX), Err(CanvasError::InvalidBuffer));
}

#[test]
fn scatter_plot_of_a_buffer() {
    let (c, skipped) = plot3d_scatter(&demo_buffer(), 3, None).unwrap();
    assert_eq!(skipped, 0);
    let bytes = c.to_rgba_bytes();
    let dark = bytes.chunks(4).filter(|p| p != &[255, 255, 255, 255]).count();
    assert_eq!(dark, 90);

    let mut by_hand = ImageCanvas::blank(512, 512, WHITE).unwrap();
    let ps = points_from_buffer(&demo_buffer(), 3).unwrap();
    by_hand.draw_points3d(&ps, BLACK, &AxesRotation::identity());
    assert_eq!(bytes, by_hand.to_rgba_bytes());
}

#[test]
fn scatter_plot_in_a_given_color() {
    let red = RgbaStruct { r: 255, g: 0, b: 0, a: 255 };
    let (c, _) = plot3d_scatter(&demo_buffer(), 3, Some(red)).unwrap();
    assert_eq!(c.get_pixel(97, 512 - 358), Some(red));
}

#[test]
fn scatter_plot_skips_points_in_the_camera_plane() {
    let buffer = vec![fx(1, 2), fx(1, 2), fx(-2, 1), fx(1, 2), fx(1, 2), fx(1, 2)];
    let (c, skipped) = plot3d_scatter(&buffer, 2, None).unwrap();
    assert_eq!(skipped, 1);
    assert_eq!(c.get_pixel(251, 256), Some(BLACK));
}

#[test]
fn scatter_plot_rejects_a_length_mismatch() {
    assert_eq!(plot3d_scatter(&demo_buffer(), 2, None).err(), Some(CanvasError::InvalidBuffer));
    assert_eq!(plot3d_scatter(&[], 1, None).err(), Some(CanvasError::InvalidBuffer));
    let (c, skipped) = plot3d_scatter(&[], 0, None).unwrap();
    assert_eq!(skipped, 0);
    assert_eq!(c.to_rgba_bytes(), vec![255u8; 512 * 512 * 4]);
}
