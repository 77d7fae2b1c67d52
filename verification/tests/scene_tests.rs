use plotcanvas::{
    AxesRotation, Canvas, Ellipse2D, Fixed, ImageCanvas, Line2D, RgbaStruct, Scene, Shape2D,
    Shape3D, Vector3D,
};

const WHITE: RgbaStruct = RgbaStruct { r: 255, g: 255, b: 255, a: 255 };
const BLACK: RgbaStruct = RgbaStruct { r: 0, g: 0, b: 0, a: 255 };

fn fx(num: i64, den: i64) -> Fixed {
    Fixed::from_ratio(num, den).unwrap()
}

fn demo_line() -> Line2D {
    Line2D { x0: fx(1, 10), y0: fx(1, 5), x1: fx(9, 10), y1: fx(7, 10) }
}

fn demo_ellipse() -> Ellipse2D {
    Ellipse2D { x0: fx(1, 10), y0: fx(1, 10), x1: fx(1, 2), y1: fx(9, 10) }
}

fn demo_points() -> Vec<Vector3D> {
    vec![
        Vector3D { x: fx(1, 5), y: fx(7, 10), z: fx(0, 1) },
        Vector3D { x: fx(1, 5), y: fx(7, 10), z: fx(1, 2) },
        Vector3D { x: fx(1, 5), y: fx(7, 10), z: fx(1, 1) },
    ]
}

fn stats(c: &ImageCanvas) -> (usize, u64) {
    let bytes = c.to_rgba_bytes();
    let dark = bytes.chunks(4).filter(|p| p != &[255, 255, 255, 255]).count();
    let red = bytes.chunks(4).map(|p| p[0] as u64).sum();
    (dark, red)
}

#[test]
fn rendering_an_empty_scene_changes_nothing() {
    let background = RgbaStruct { r: 12, g: 34, b: 56, a: 78 };
    let fresh = ImageCanvas::blank(32, 16, background).unwrap().to_rgba_bytes();
    let scenes = [
        Scene::Scene2D(Vec::new()),
        Scene::Scene3D(Vec::new()),
        Scene::Scene3D(vec![(Shape3D::Points3D(Vec::new()), BLACK)]),
    ];
    for scene in &scenes {
        let mut c = ImageCanvas::blank(32, 16, background).unwrap();
        assert_eq!(c.render(scene, None), 0);
        assert_eq!(c.to_rgba_bytes(), fresh);
        assert_eq!(c.dimensions(), (32, 16));
    }
}

#[test]
fn rendering_twice_gives_identical_canvases() {
    let scene = Scene::Scene2D(vec![
        (Shape2D::Line2D(demo_line()), BLACK),
        (Shape2D::Ellipse2D(demo_ellipse()), RgbaStruct { r: 200, g: 0, b: 0, a: 255 }),
    ]);
    let mut a = ImageCanvas::blank(512, 512, WHITE).unwrap();
    let mut b = ImageCanvas::blank(512, 512, WHITE).unwrap();
    a.render(&scene, None);
    b.render(&scene, None);
    assert_eq!(a.to_rgba_bytes(), b.to_rgba_bytes());

    let rot = AxesRotation::new(
        (fx(1, 2), Fixed::from_raw(14529495)),
        (fx(0, 1), fx(1, 1)),
        (fx(0, 1), fx(1, 1)),
    )
    .unwrap();
    let cloud = Scene::Scene3D(vec![(Shape3D::Points3D(demo_points()), BLACK)]);
    let mut a = ImageCanvas::blank(256, 128, WHITE).unwrap();
    let mut b = ImageCanvas::blank(256, 128, WHITE).unwrap();
    assert_eq!(a.render(&cloud, Some(&rot)), b.render(&cloud, Some(&rot)));
    assert_eq!(a.to_rgba_bytes(), b.to_rgba_bytes());
}

#[test]
fn line_and_ellipse_on_a_white_512_canvas() {
    let mut c = ImageCanvas::blank(512, 512, WHITE).unwrap();
    let line_only = Scene::Scene2D(vec![(Shape2D::Line2D(demo_line()), BLACK)]);
    assert_eq!(c.render(&line_only, None), 0);
    assert_eq!(stats(&c), (818, 66742782));
    let gray = |v: u8| Some(RgbaStruct { r: v, g: v, b: v, a: 255 });
    // coverage 89 and 166 in column 458, device rows 356 and 357
    assert_eq!(c.get_pixel(458, 156), gray(166));
    assert_eq!(c.get_pixel(458, 155), gray(89));
    // left endcap: coverage 55 and 21
    assert_eq!(c.get_pixel(51, 410), gray(200));
    assert_eq!(c.get_pixel(51, 409), gray(234));
    // right endcap: coverage 8 and 69
    assert_eq!(c.get_pixel(460, 155), gray(247));
    assert_eq!(c.get_pixel(460, 154), gray(186));

    let mut c = ImageCanvas::blank(512, 512, WHITE).unwrap();
    let both = Scene::Scene2D(vec![
        (Shape2D::Line2D(demo_line()), BLACK),
        (Shape2D::Ellipse2D(demo_ellipse()), BLACK),
    ]);
    assert_eq!(c.render(&both, None), 0);
    assert_eq!(stats(&c), (1733, 66509081));
    assert_eq!(c.get_pixel(51, 256), Some(BLACK));
    assert_eq!(c.get_pixel(256, 256), Some(BLACK));
    assert_eq!(c.get_pixel(50, 256), Some(WHITE));
    assert_eq!(c.get_pixel(153, 51), Some(BLACK));
    assert_eq!(c.get_pixel(153, 461), Some(BLACK));
    assert_eq!(c.get_pixel(458, 156), gray(166));
}

#[test]
fn shapes_are_drawn_in_order() {
    let red = RgbaStruct { r: 255, g: 0, b: 0, a: 255 };
    let e = Ellipse2D { x0: fx(1, 4), y0: fx(1, 4), x1: fx(3, 4), y1: fx(3, 4) };
    let mut c = ImageCanvas::blank(8, 8, WHITE).unwrap();
    c.render(&Scene::Scene2D(vec![(Shape2D::Ellipse2D(e), BLACK), (Shape2D::Ellipse2D(e), red)]), None);
    assert_eq!(c.get_pixel(2, 4), Some(red));
    let mut c = ImageCanvas::blank(8, 8, WHITE).unwrap();
    c.render(&Scene::Scene2D(vec![(Shape2D::Ellipse2D(e), red), (Shape2D::Ellipse2D(e), BLACK)]), None);
    assert_eq!(c.get_pixel(2, 4), Some(BLACK));
}

#[test]
fn point_cloud_without_rotation() {
    let scene = Scene::Scene3D(vec![(Shape3D::Points3D(demo_points()), BLACK)]);
    let mut c = ImageCanvas::blank(512, 512, WHITE).unwrap();
    assert_eq!(c.render(&scene, None), 0);
    assert_eq!(stats(&c), (90, 66823770));
    // no rotation is the identity
    let mut d = ImageCanvas::blank(512, 512, WHITE).unwrap();
    assert_eq!(d.render(&scene, Some(&AxesRotation::identity())), 0);
    assert_eq!(c.to_rgba_bytes(), d.to_rgba_bytes());
}

#[test]
fn rotation_moves_the_markers() {
    let scene = Scene::Scene3D(vec![(Shape3D::Points3D(demo_points()), BLACK)]);
    let rot = AxesRotation::new(
        (fx(1, 2), Fixed::from_raw(14529495)),
        (fx(0, 1), fx(1, 1)),
        (fx(0, 1), fx(1, 1)),
    )
    .unwrap();
    let mut plain = ImageCanvas::blank(512, 512, WHITE).unwrap();
    let mut turned = ImageCanvas::blank(512, 512, WHITE).unwrap();
    plain.render(&scene, None);
    turned.render(&scene, Some(&rot));
    assert_ne!(plain.to_rgba_bytes(), turned.to_rgba_bytes());
}

#[test]
fn render_counts_points_in_the_camera_plane() {
    let in_plane = Vector3D { x: fx(1, 2), y: fx(1, 2), z: fx(-2, 1) };
    let scene = Scene::Scene3D(vec![
        (Shape3D::Points3D(vec![in_plane, demo_points()[0], in_plane]), BLACK),
        (Shape3D::Points3D(Vec::new()), BLACK),
        (Shape3D::Points3D(vec![in_plane]), BLACK),
    ]);
    let mut c = ImageCanvas::blank(512, 512, WHITE).unwrap();
    assert_eq!(c.render(&scene, None), 3);
    // only the one projectable point left a marker
    let mut single = ImageCanvas::blank(512, 512, WHITE).unwrap();
    single.draw_points3d(&vec![demo_points()[0]], BLACK, &AxesRotation::identity());
    assert_eq!(c.to_rgba_bytes(), single.to_rgba_bytes());
}
