use plotcanvas::projection::{point_marker, project_point, project_points};
use plotcanvas::{AxesRotation, Canvas, Ellipse2D, Fixed, ImageCanvas, RgbaStruct, Vector3D};

const WHITE: RgbaStruct = RgbaStruct { r: 255, g: 255, b: 255, a: 255 };
const BLACK: RgbaStruct = RgbaStruct { r: 0, g: 0, b: 0, a: 255 };

fn fx(num: i64, den: i64) -> Fixed {
    Fixed::from_ratio(num, den).unwrap()
}

fn point(x: (i64, i64), y: (i64, i64), z: (i64, i64)) -> Vector3D {
    Vector3D { x: fx(x.0, x.1), y: fx(y.0, y.1), z: fx(z.0, z.1) }
}

/// sin and cos of 30 degrees.
fn thirty() -> (Fixed, Fixed) {
    (fx(1, 2), Fixed::from_raw(14529495))
}

fn none() -> (Fixed, Fixed) {
    (fx(0, 1), fx(1, 1))
}

#[test]
fn the_object_origin_projects_to_the_centre() {
    let origin = point((1, 2), (1, 2), (1, 2));
    let at = project_point(&origin, &AxesRotation::identity());
    assert_eq!(at, Some((fx(1, 2), fx(1, 2))));
}

#[test]
fn the_object_origin_stays_put_under_any_rotation() {
    let origin = point((1, 2), (1, 2), (1, 2));
    let rot = AxesRotation::new(thirty(), thirty(), thirty()).unwrap();
    assert_eq!(project_point(&origin, &rot), Some((fx(1, 2), fx(1, 2))));
    let rot = AxesRotation::new((fx(-1, 1), fx(0, 1)), none(), (fx(1, 1), fx(-1, 1))).unwrap();
    assert_eq!(project_point(&origin, &rot), Some((fx(1, 2), fx(1, 2))));
}

#[test]
fn points_at_increasing_depth_move_towards_the_centre() {
    let id = AxesRotation::identity();
    // depth 2.0: (x - 0.5) / 2 / 0.5 + 0.5 = x
    let at = project_point(&point((1, 5), (7, 10), (0, 1)), &id).unwrap();
    assert_eq!(at, (fx(1, 5), fx(7, 10)));
    let at = project_point(&point((1, 5), (7, 10), (1, 2)), &id).unwrap();
    assert_eq!((at.0.raw, at.1.raw), (4362076, 11072962));
    let at = project_point(&point((1, 5), (7, 10), (1, 1)), &id).unwrap();
    assert_eq!((at.0.raw, at.1.raw), (5033165, 10625570));
}

#[test]
fn project_points_keeps_the_order_of_the_points() {
    let points = vec![
        point((1, 5), (7, 10), (1, 1)),
        point((1, 2), (1, 2), (-2, 1)),
        point((1, 2), (1, 2), (1, 2)),
        point((1, 5), (7, 10), (0, 1)),
    ];
    let before = points.clone();
    let out = project_points(&points, &AxesRotation::identity());
    assert_eq!(points, before);
    assert_eq!(
        out,
        vec![
            Some((Fixed::from_raw(5033165), Fixed::from_raw(10625570))),
            None,
            Some((fx(1, 2), fx(1, 2))),
            Some((fx(1, 5), fx(7, 10))),
        ]
    );
    assert_eq!(project_points(&Vec::new(), &AxesRotation::identity()), Vec::new());
    let rot = AxesRotation::new(thirty(), thirty(), thirty()).unwrap();
    for (p, at) in points.iter().zip(project_points(&points, &rot)) {
        assert_eq!(project_point(p, &rot), at);
    }
}

#[test]
fn extreme_points_are_projected_without_overflow() {
    let far = Vector3D {
        x: Fixed::from_raw(i32::MIN),
        y: Fixed::from_raw(i32::MAX),
        z: Fixed::from_raw(i32::MAX),
    };
    let rot = AxesRotation::new((fx(1, 1), fx(1, 1)), (fx(-1, 1), fx(1, 1)), (fx(1, 1), fx(-1, 1)))
        .unwrap();
    let at = project_points(&vec![far, far], &rot);
    assert_eq!(at.len(), 2);
    assert_eq!(at[0], at[1]);
    assert!(at[0].is_some());
}

#[test]
fn a_point_in_the_camera_plane_has_no_projection() {
    let id = AxesRotation::identity();
    // z - 0.5 + 2.5 = 0
    assert_eq!(project_point(&point((1, 2), (1, 2), (-2, 1)), &id), None);
    assert_eq!(project_point(&point((1, 5), (7, 10), (-2, 1)), &id), None);
}

#[test]
fn a_point_behind_the_camera_is_mirrored() {
    let id = AxesRotation::identity();
    let at = project_point(&point((1, 5), (7, 10), (-3, 1)), &id).unwrap();
    assert_eq!((at.0.raw, at.1.raw), (18454938, 1677722));
}

#[test]
fn a_point_next_to_the_camera_plane_is_limited_to_the_range() {
    let id = AxesRotation::identity();
    let p = Vector3D { x: fx(1, 1), y: fx(1, 1), z: Fixed::from_raw(-33554431) };
    let at = project_point(&p, &id).unwrap();
    assert_eq!((at.0.raw, at.1.raw), (i32::MAX, i32::MAX));
}

#[test]
fn rotation_about_one_axis() {
    let rot = AxesRotation::new(thirty(), none(), none()).unwrap();
    let at = project_point(&point((1, 5), (7, 10), (1, 1)), &rot).unwrap();
    assert_eq!((at.0.raw, at.1.raw), (4835384, 13401083));
}

#[test]
fn rotation_about_all_axes() {
    let rot = AxesRotation::new(thirty(), thirty(), thirty()).unwrap();
    let at = project_point(&point((1, 5), (7, 10), (1, 1)), &rot).unwrap();
    assert_eq!((at.0.raw, at.1.raw), (6384342, 15760611));
}

#[test]
fn rotation_components_must_lie_in_the_unit_range() {
    let over = Fixed::from_raw(16777217);
    let under = Fixed::from_raw(-16777217);
    assert!(AxesRotation::new((over, fx(0, 1)), none(), none()).is_none());
    assert!(AxesRotation::new(none(), (fx(0, 1), under), none()).is_none());
    assert!(AxesRotation::new(none(), none(), (over, under)).is_none());
    let edge = AxesRotation::new((fx(1, 1), fx(-1, 1)), none(), none()).unwrap();
    assert_eq!(
        edge.components().map(|c| c.raw),
        [16777216, -16777216, 0, 16777216, 0, 16777216]
    );
    assert_eq!(
        AxesRotation::identity().components().map(|c| c.raw),
        [0, 16777216, 0, 16777216, 0, 16777216]
    );
}

#[test]
fn marker_reaches_one_hundredth_to_each_side() {
    let m = point_marker((fx(1, 2), fx(1, 2)));
    assert_eq!(
        m,
        Ellipse2D {
            x0: Fixed::from_raw(8220836),
            y0: Fixed::from_raw(8220836),
            x1: Fixed::from_raw(8556380),
            y1: Fixed::from_raw(8556380),
        }
    );
    let m = point_marker((Fixed::from_raw(i32::MAX), Fixed::from_raw(i32::MIN)));
    assert_eq!(m.x1.raw, i32::MAX);
    assert_eq!(m.x0.raw, i32::MAX - 167772);
    assert_eq!(m.y0.raw, i32::MIN);
    assert_eq!(m.y1.raw, i32::MIN + 167772);
}

#[test]
fn draw_points3d_marks_each_point_and_counts_the_skipped() {
    let mut c = ImageCanvas::blank(512, 512, WHITE).unwrap();
    let points = vec![
        point((1, 5), (7, 10), (0, 1)),
        point((1, 2), (1, 2), (-2, 1)),
        point((1, 5), (7, 10), (1, 2)),
        point((1, 5), (7, 10), (1, 1)),
        point((0, 1), (0, 1), (-2, 1)),
    ];
    let before = points.clone();
    let skipped = c.draw_points3d(&points, BLACK, &AxesRotation::identity());
    assert_eq!(skipped, 2);
    assert_eq!(points, before);
    let mut dark = 0;
    let mut red_total: u64 = 0;
    for x in 0..512 {
        for y in 0..512 {
            let p = c.get_pixel(x, y).unwrap();
            if p != WHITE {
                assert_eq!(p, BLACK);
                dark += 1;
            }
            red_total += p.r as u64;
        }
    }
    assert_eq!(dark, 90);
    assert_eq!(red_total, 66823770);
    // the marker of the first point spans columns 97..=108 and device rows 353..=364
    assert_eq!(c.get_pixel(97, 512 - 358), Some(BLACK));
    assert_eq!(c.get_pixel(108, 512 - 358), Some(BLACK));
    assert_eq!(c.get_pixel(96, 512 - 358), Some(WHITE));
}

#[test]
fn draw_points3d_of_the_origin_marks_the_centre() {
    let mut c = ImageCanvas::blank(512, 512, WHITE).unwrap();
    let skipped = c.draw_points3d(&vec![point((1, 2), (1, 2), (1, 2))], BLACK, &AxesRotation::identity());
    assert_eq!(skipped, 0);
    assert_eq!(c.get_pixel(251, 256), Some(BLACK));
    assert_eq!(c.get_pixel(261, 256), Some(BLACK));
    assert_eq!(c.get_pixel(256, 251), Some(BLACK));
    assert_eq!(c.get_pixel(256, 261), Some(BLACK));
    assert_eq!(c.get_pixel(256, 256), Some(WHITE));
    let dark = c.to_rgba_bytes().chunks(4).filter(|p| p[0] == 0).count();
    assert_eq!(dark, 28);
}
