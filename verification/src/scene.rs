//! Scenes and their rendering onto a canvas.

use vstd::prelude::*;
use crate::canvas::{
    device_column, device_row, lemma_plot_all_keeps_shape, CanvasView, ImageCanvas,
};
use crate::color::RgbaStruct;
use crate::ellipse::{draw_ellipse, ellipse_writes};
use crate::fixed::Fixed;
use crate::line::{draw_line2d_antialiased, line_writes};
use crate::projection::{marker, point_marker, project_points, projected, singular};
use crate::scene2d::{Ellipse2D, Line2D, Shape2D};
use crate::scene3d::{AxesRotation, RotationView, Shape3D, Vector3D};

verus! {

/// What to render: a list of flat shapes or a list of solid ones, each with
/// its color, drawn first to last.
#[derive(Debug)]
pub enum Scene {
    Scene2D(Vec<(Shape2D, RgbaStruct)>),
    Scene3D(Vec<(Shape3D, RgbaStruct)>),
}

impl CanvasView {
    /// The canvas after compositing the antialiased `line` onto it.
    pub open spec fn with_line(self, line: Line2D, color: RgbaStruct) -> CanvasView {
        self.plot_all(line_writes(line, self.width as int, self.height as int, color), true)
    }

    /// The canvas after drawing the outline of `ellipse` onto it.
    pub open spec fn with_ellipse(self, ellipse: Ellipse2D, color: RgbaStruct) -> CanvasView {
        self.plot_all(
            ellipse_writes(ellipse, self.width as int, self.height as int, color),
            false,
        )
    }

    /// The canvas after drawing one flat shape.
    pub open spec fn with_shape2d(self, shape: Shape2D, color: RgbaStruct) -> CanvasView {
        match shape {
            Shape2D::Line2D(line) => self.with_line(line, color),
            Shape2D::Ellipse2D(ellipse) => self.with_ellipse(ellipse, color),
        }
    }

    /// The canvas after marking where `p` projects to. A point in the camera
    /// plane leaves the canvas as it is.
    pub open spec fn with_point(self, p: Vector3D, color: RgbaStruct, r: RotationView) -> CanvasView {
        match projected(p, r) {
            Some(at) => self.with_ellipse(marker(at), color),
            None => self,
        }
    }

    /// The canvas after marking the points `ps`, first to last.
    pub open spec fn with_points(self, ps: Seq<Vector3D>, color: RgbaStruct, r: RotationView) -> CanvasView
        decreases ps.len(),
    {
        if ps.len() == 0 {
            self
        } else {
            self.with_points(ps.drop_last(), color, r).with_point(ps.last(), color, r)
        }
    }

    /// The canvas after drawing one solid shape.
    pub open spec fn with_shape3d(self, shape: Shape3D, color: RgbaStruct, r: RotationView) -> CanvasView {
        match shape {
            Shape3D::Points3D(ps) => self.with_points(ps@, color, r),
        }
    }

    /// The canvas after drawing the flat shapes `shapes`, first to last.
    pub open spec fn with_shapes2d(self, shapes: Seq<(Shape2D, RgbaStruct)>) -> CanvasView
        decreases shapes.len(),
    {
        if shapes.len() == 0 {
            self
        } else {
            self.with_shapes2d(shapes.drop_last()).with_shape2d(shapes.last().0, shapes.last().1)
        }
    }

    /// The canvas after drawing the solid shapes `shapes`, first to last.
    pub open spec fn with_shapes3d(self, shapes: Seq<(Shape3D, RgbaStruct)>, r: RotationView) -> CanvasView
        decreases shapes.len(),
    {
        if shapes.len() == 0 {
            self
        } else {
            self.with_shapes3d(shapes.drop_last(), r).with_shape3d(
                shapes.last().0,
                shapes.last().1,
                r,
            )
        }
    }

    /// The canvas after rendering `scene` with rotation `r`. The rotation
    /// only matters to a scene of solid shapes.
    pub open spec fn rendered(self, scene: Scene, r: RotationView) -> CanvasView {
        match scene {
            Scene::Scene2D(shapes) => self.with_shapes2d(shapes@),
            Scene::Scene3D(shapes) => self.with_shapes3d(shapes@, r),
        }
    }
}

/// How many of the points `ps` lie in the camera plane.
pub open spec fn singular_points(ps: Seq<Vector3D>, r: RotationView) -> nat
    decreases ps.len(),
{
    if ps.len() == 0 {
        0
    } else {
        singular_points(ps.drop_last(), r) + if singular(ps.last(), r) {
            1nat
        } else {
            0nat
        }
    }
}

/// How many points of the solid shapes `shapes` lie in the camera plane.
pub open spec fn singular_in_shapes(shapes: Seq<(Shape3D, RgbaStruct)>, r: RotationView) -> nat
    decreases shapes.len(),
{
    if shapes.len() == 0 {
        0
    } else {
        singular_in_shapes(shapes.drop_last(), r) + match shapes.last().0 {
            Shape3D::Points3D(ps) => singular_points(ps@, r),
        }
    }
}

/// How many points of `scene` cannot be projected and are skipped.
pub open spec fn singular_in_scene(scene: Scene, r: RotationView) -> nat {
    match scene {
        Scene::Scene2D(_) => 0,
        Scene::Scene3D(shapes) => singular_in_shapes(shapes@, r),
    }
}

/// `n`, or the largest `usize` if `n` exceeds it.
pub open spec fn saturated(n: nat) -> usize {
    if n > usize::MAX {
        usize::MAX
    } else {
        n as usize
    }
}

/// Whether a solid shape consists of no points at all.
pub open spec fn no_points(shape: Shape3D) -> bool {
    match shape {
        Shape3D::Points3D(ps) => ps@.len() == 0,
    }
}

/// Whether `scene` has nothing to draw: it lists no shapes, or only point
/// clouds without points.
pub open spec fn nothing_to_draw(scene: Scene) -> bool {
    match scene {
        Scene::Scene2D(shapes) => shapes@.len() == 0,
        Scene::Scene3D(shapes) => forall|i: int|
            0 <= i < shapes@.len() ==> no_points((#[trigger] shapes@[i]).0),
    }
}

/// Rendering a scene that has nothing to draw leaves the canvas as it was
/// and skips no point.
pub proof fn lemma_render_nothing(c: CanvasView, scene: Scene, r: RotationView)
    requires
        nothing_to_draw(scene),
    ensures
        c.rendered(scene, r) == c,
        singular_in_scene(scene, r) == 0,
{
    match scene {
        Scene::Scene2D(shapes) => {},
        Scene::Scene3D(shapes) => {
            lemma_empty_clouds(c, shapes@, r);
        },
    }
}

proof fn lemma_empty_clouds(c: CanvasView, shapes: Seq<(Shape3D, RgbaStruct)>, r: RotationView)
    requires
        forall|i: int| 0 <= i < shapes.len() ==> no_points((#[trigger] shapes[i]).0),
    ensures
        c.with_shapes3d(shapes, r) == c,
        singular_in_shapes(shapes, r) == 0,
    decreases shapes.len(),
{
    if shapes.len() > 0 {
        lemma_empty_clouds(c, shapes.drop_last(), r);
        assert(shapes.last() == shapes[shapes.len() - 1]);
    }
}

/// Rendering is a function of the canvas content, the scene and the
/// rotation alone: canvases that agree before rendering the same scene agree
/// after it.
pub proof fn lemma_render_deterministic(a: CanvasView, b: CanvasView, scene: Scene, r: RotationView)
    requires
        a.width == b.width,
        a.height == b.height,
        a.pixels == b.pixels,
    ensures
        a.rendered(scene, r) == b.rendered(scene, r),
{
}

/// Rendering never changes the dimensions of a canvas or the set of
/// coordinates that have a pixel.
pub proof fn lemma_render_keeps_shape(c: CanvasView, scene: Scene, r: RotationView)
    ensures
        c.rendered(scene, r).width == c.width,
        c.rendered(scene, r).height == c.height,
        c.wf() ==> c.rendered(scene, r).wf(),
{
    match scene {
        Scene::Scene2D(shapes) => {
            lemma_shapes2d_keep_shape(c, shapes@);
        },
        Scene::Scene3D(shapes) => {
            lemma_shapes3d_keep_shape(c, shapes@, r);
        },
    }
}

proof fn lemma_shape2d_keeps_shape(c: CanvasView, shape: Shape2D, color: RgbaStruct)
    ensures
        c.with_shape2d(shape, color).width == c.width,
        c.with_shape2d(shape, color).height == c.height,
        c.wf() ==> c.with_shape2d(shape, color).wf(),
{
    match shape {
        Shape2D::Line2D(line) => {
            lemma_plot_all_keeps_shape(
                c,
                line_writes(line, c.width as int, c.height as int, color),
                true,
            );
        },
        Shape2D::Ellipse2D(ellipse) => {
            lemma_plot_all_keeps_shape(
                c,
                ellipse_writes(ellipse, c.width as int, c.height as int, color),
                false,
            );
        },
    }
}

proof fn lemma_shapes2d_keep_shape(c: CanvasView, shapes: Seq<(Shape2D, RgbaStruct)>)
    ensures
        c.with_shapes2d(shapes).width == c.width,
        c.with_shapes2d(shapes).height == c.height,
        c.wf() ==> c.with_shapes2d(shapes).wf(),
    decreases shapes.len(),
{
    if shapes.len() > 0 {
        lemma_shapes2d_keep_shape(c, shapes.drop_last());
        lemma_shape2d_keeps_shape(
            c.with_shapes2d(shapes.drop_last()),
            shapes.last().0,
            shapes.last().1,
        );
    }
}

proof fn lemma_points_keep_shape(c: CanvasView, ps: Seq<Vector3D>, color: RgbaStruct, r: RotationView)
    ensures
        c.with_points(ps, color, r).width == c.width,
        c.with_points(ps, color, r).height == c.height,
        c.wf() ==> c.with_points(ps, color, r).wf(),
    decreases ps.len(),
{
    if ps.len() > 0 {
        lemma_points_keep_shape(c, ps.drop_last(), color, r);
        let before = c.with_points(ps.drop_last(), color, r);
        match projected(ps.last(), r) {
            Some(at) => {
                lemma_plot_all_keeps_shape(
                    before,
                    ellipse_writes(marker(at), before.width as int, before.height as int, color),
                    false,
                );
            },
            None => {},
        }
    }
}

proof fn lemma_shapes3d_keep_shape(c: CanvasView, shapes: Seq<(Shape3D, RgbaStruct)>, r: RotationView)
    ensures
        c.with_shapes3d(shapes, r).width == c.width,
        c.with_shapes3d(shapes, r).height == c.height,
        c.wf() ==> c.with_shapes3d(shapes, r).wf(),
    decreases shapes.len(),
{
    if shapes.len() > 0 {
        lemma_shapes3d_keep_shape(c, shapes.drop_last(), r);
        let before = c.with_shapes3d(shapes.drop_last(), r);
        match shapes.last().0 {
            Shape3D::Points3D(ps) => {
                lemma_points_keep_shape(before, ps@, shapes.last().1, r);
            },
        }
    }
}

/// A surface that shapes can be drawn on. Normalized coordinates have their
/// origin in the bottom-left corner of the surface.
pub trait Canvas {
    /// The content of the surface.
    spec fn content(&self) -> CanvasView;

    /// Writes `color` at the normalized point `(x, y)`. The pixel replaced is
    /// in column `x * width` and storage row `(1 - y) * height`, both rounded;
    /// a point that falls outside the surface is discarded.
    fn draw(&mut self, x: Fixed, y: Fixed, color: RgbaStruct)
        ensures
            final(self).content() == old(self).content().put(
                device_column(x, old(self).content().width as int),
                device_row(y, old(self).content().height as int),
                color,
            ),
    ;

    /// As [`Canvas::draw`], but composites `color` over the pixel already
    /// there, weighting by `color.a`.
    fn draw_blended(&mut self, x: Fixed, y: Fixed, color: RgbaStruct)
        ensures
            final(self).content() == old(self).content().put_blended(
                device_column(x, old(self).content().width as int),
                device_row(y, old(self).content().height as int),
                color,
            ),
    ;

    /// Composites the antialiased `line` onto the surface in `color`.
    fn draw_line2d(&mut self, line: &Line2D, color: RgbaStruct)
        ensures
            final(self).content() == old(self).content().with_line(*line, color),
    ;

    /// Draws the outline of `ellipse` onto the surface in `color`.
    fn draw_ellipse2d(&mut self, ellipse: &Ellipse2D, color: RgbaStruct)
        ensures
            final(self).content() == old(self).content().with_ellipse(*ellipse, color),
    ;

    /// Rotates and projects `points` and marks each with a small ellipse in
    /// `color`. A point that lies in the camera plane has no projection: it
    /// is skipped, and the number of such points is returned. `points` is
    /// left as it was.
    fn draw_points3d(
        &mut self,
        points: &Vec<Vector3D>,
        color: RgbaStruct,
        axes_rotation: &AxesRotation,
    ) -> (skipped: usize)
        ensures
            final(self).content() == old(self).content().with_points(
                points@,
                color,
                axes_rotation@,
            ),
            skipped == singular_points(points@, axes_rotation@),
    ;

    /// Renders `scene` onto the surface, shape by shape. Solid shapes are
    /// rotated by `axes_rotation`, or not at all if it is `None`. Returns the
    /// number of points that were skipped because they lie in the camera
    /// plane, limited to the range of `usize`.
    fn render(&mut self, scene: &Scene, axes_rotation: Option<&AxesRotation>) -> (skipped: usize)
        ensures
            final(self).content() == old(self).content().rendered(
                *scene,
                rotation_or_identity(axes_rotation),
            ),
            skipped == saturated(
                singular_in_scene(*scene, rotation_or_identity(axes_rotation)),
            ),
    ;
}

impl Canvas for ImageCanvas {
    open spec fn content(&self) -> CanvasView {
        self@
    }

    fn draw(&mut self, x: Fixed, y: Fixed, color: RgbaStruct) {
        let (col, row) = self.locate(x, y);
        self.store(col, row, color, false);
    }

    fn draw_blended(&mut self, x: Fixed, y: Fixed, color: RgbaStruct) {
        let (col, row) = self.locate(x, y);
        self.store(col, row, color, true);
    }

    fn draw_line2d(&mut self, line: &Line2D, color: RgbaStruct) {
        let ws = draw_line2d_antialiased(line, self.dimensions(), color);
        self.plot_all(&ws, true);
    }

    fn draw_ellipse2d(&mut self, ellipse: &Ellipse2D, color: RgbaStruct) {
        let ws = draw_ellipse(ellipse, self.dimensions(), color);
        self.plot_all(&ws, false);
    }

    fn draw_points3d(
        &mut self,
        points: &Vec<Vector3D>,
        color: RgbaStruct,
        axes_rotation: &AxesRotation,
    ) -> (skipped: usize) {
        let projections = project_points(points, axes_rotation);
        let mut skipped: usize = 0;
        let mut i: usize = 0;
        while i < points.len()
            invariant
                i <= points.len(),
                skipped <= i,
                projections@.len() == points@.len(),
                forall|j: int|
                    0 <= j < projections@.len() ==> #[trigger] projections@[j] == projected(
                        points@[j],
                        axes_rotation@,
                    ),
                skipped == singular_points(points@.take(i as int), axes_rotation@),
                self@ == old(self)@.with_points(points@.take(i as int), color, axes_rotation@),
            decreases points.len() - i,
        {
            proof {
                assert(points@.take(i + 1).drop_last() =~= points@.take(i as int));
                assert(points@.take(i + 1).last() == points@[i as int]);
            }
            match projections[i] {
                Some(at) => {
                    let e = point_marker(at);
                    self.draw_ellipse2d(&e, color);
                },
                None => {
                    skipped = skipped + 1;
                },
            }
            i = i + 1;
        }
        proof {
            assert(points@.take(points.len() as int) =~= points@);
        }
        skipped
    }

    fn render(&mut self, scene: &Scene, axes_rotation: Option<&AxesRotation>) -> (skipped: usize) {
        let no_rotation = AxesRotation::identity();
        let rot: &AxesRotation = match axes_rotation {
            Some(r) => r,
            None => &no_rotation,
        };
        match scene {
            Scene::Scene2D(shapes) => {
                let mut i: usize = 0;
                while i < shapes.len()
                    invariant
                        i <= shapes.len(),
                        self@ == old(self)@.with_shapes2d(shapes@.take(i as int)),
                    decreases shapes.len() - i,
                {
                    proof {
                        assert(shapes@.take(i + 1).drop_last() =~= shapes@.take(i as int));
                        assert(shapes@.take(i + 1).last() == shapes@[i as int]);
                    }
                    let color = shapes[i].1;
                    match shapes[i].0 {
                        Shape2D::Line2D(line) => self.draw_line2d(&line, color),
                        Shape2D::Ellipse2D(ellipse) => self.draw_ellipse2d(&ellipse, color),
                    }
                    i = i + 1;
                }
                proof {
                    assert(shapes@.take(shapes.len() as int) =~= shapes@);
                }
                0
            },
            Scene::Scene3D(shapes) => {
                let mut skipped: usize = 0;
                let mut i: usize = 0;
                while i < shapes.len()
                    invariant
                        i <= shapes.len(),
                        skipped == saturated(singular_in_shapes(shapes@.take(i as int), rot@)),
                        self@ == old(self)@.with_shapes3d(shapes@.take(i as int), rot@),
                    decreases shapes.len() - i,
                {
                    proof {
                        assert(shapes@.take(i + 1).drop_last() =~= shapes@.take(i as int));
                        assert(shapes@.take(i + 1).last() == shapes@[i as int]);
                    }
                    let color = shapes[i].1;
                    match &shapes[i].0 {
                        Shape3D::Points3D(points) => {
                            let n = self.draw_points3d(points, color, rot);
                            skipped = skipped.saturating_add(n);
                        },
                    }
                    i = i + 1;
                }
                proof {
                    assert(shapes@.take(shapes.len() as int) =~= shapes@);
                }
                skipped
            },
        }
    }
}

/// The rotation that a scene is rendered with: the one given, or none.
pub open spec fn rotation_or_identity(r: Option<&AxesRotation>) -> RotationView {
    match r {
        Some(rot) => rot@,
        None => RotationView::identity(),
    }
}

} // verus!
