//! Ready-made plots on a 512 by 512 white canvas.

use vstd::prelude::*;
use crate::canvas::{fresh, CanvasError, CanvasView, ImageCanvas};
use crate::color::RgbaStruct;
use crate::fixed::Fixed;
use crate::scene::{singular_points, Canvas, Scene};
use crate::scene2d::{Ellipse2D, Line2D, Shape2D};
use crate::scene3d::{AxesRotation, RotationView, Vector3D};

verus! {

/// The side of the canvas that the plots are drawn on, in pixels.
pub const PLOT_SIZE: u32 = 512;

/// Opaque white, the background of every plot.
pub open spec fn white() -> RgbaStruct {
    RgbaStruct { r: 255, g: 255, b: 255, a: 255 }
}

/// Opaque black, the color of a plot unless one is given.
pub open spec fn black() -> RgbaStruct {
    RgbaStruct { r: 0, g: 0, b: 0, a: 255 }
}

/// The line of the demonstration plot, from `(0.1, 0.2)` to `(0.9, 0.7)`.
pub open spec fn demo_line() -> Line2D {
    Line2D {
        x0: Fixed { raw: 1677722 },
        y0: Fixed { raw: 3355443 },
        x1: Fixed { raw: 15099494 },
        y1: Fixed { raw: 11744051 },
    }
}

/// The ellipse of the demonstration plot, inscribed in the box from
/// `(0.1, 0.1)` to `(0.5, 0.9)`.
pub open spec fn demo_ellipse() -> Ellipse2D {
    Ellipse2D {
        x0: Fixed { raw: 1677722 },
        y0: Fixed { raw: 1677722 },
        x1: Fixed { raw: 8388608 },
        y1: Fixed { raw: 15099494 },
    }
}

/// The points that a flat buffer of coordinates describes: point `i` has the
/// coordinates at positions `3i`, `3i + 1` and `3i + 2`.
pub open spec fn buffer_points(buffer: Seq<Fixed>) -> Seq<Vector3D> {
    Seq::new(
        buffer.len() / 3,
        |i: int| Vector3D { x: buffer[3 * i], y: buffer[3 * i + 1], z: buffer[3 * i + 2] },
    )
}

/// The color given, or black.
pub open spec fn color_or_black(color: Option<RgbaStruct>) -> RgbaStruct {
    match color {
        Some(c) => c,
        None => black(),
    }
}

fn blank_plot() -> (c: ImageCanvas)
    ensures
        c@ == fresh(512, 512, white()),
{
    let background = RgbaStruct { r: 255, g: 255, b: 255, a: 255 };
    match ImageCanvas::blank(PLOT_SIZE, PLOT_SIZE, background) {
        Ok(c) => c,
        Err(_) => unreached(),
    }
}

/// Renders the demonstration plot: a black antialiased line from
/// `(0.1, 0.2)` to `(0.9, 0.7)` and, over it, a black ellipse inscribed in
/// the box from `(0.1, 0.1)` to `(0.5, 0.9)`.
pub fn subroutine1() -> (c: ImageCanvas)
    ensures
        c@ == fresh(512, 512, white()).with_line(demo_line(), black()).with_ellipse(
            demo_ellipse(),
            black(),
        ),
{
    let ink = RgbaStruct { r: 0, g: 0, b: 0, a: 255 };
    let line1 = Line2D {
        x0: Fixed { raw: 1677722 },
        y0: Fixed { raw: 3355443 },
        x1: Fixed { raw: 15099494 },
        y1: Fixed { raw: 11744051 },
    };
    let ellipse1 = Ellipse2D {
        x0: Fixed { raw: 1677722 },
        y0: Fixed { raw: 1677722 },
        x1: Fixed { raw: 8388608 },
        y1: Fixed { raw: 15099494 },
    };
    let mut shapes: Vec<(Shape2D, RgbaStruct)> = Vec::new();
    shapes.push((Shape2D::Line2D(line1), ink));
    shapes.push((Shape2D::Ellipse2D(ellipse1), ink));
    let scene = Scene::Scene2D(shapes);
    let mut img = blank_plot();
    let ghost start = img@;
    img.render(&scene, None);
    proof {
        let s = seq![(Shape2D::Line2D(line1), ink), (Shape2D::Ellipse2D(ellipse1), ink)];
        assert(shapes@ =~= s);
        assert(s.drop_last() =~= seq![(Shape2D::Line2D(line1), ink)]);
        assert(s.drop_last().drop_last() =~= Seq::empty());
        reveal_with_fuel(CanvasView::with_shapes2d, 3);
        assert(start.with_shapes2d(s) == start.with_line(line1, ink).with_ellipse(ellipse1, ink));
    }
    img
}

/// Gathers the points of a flat coordinate buffer, three coordinates to the
/// point. Fails exactly when the buffer does not hold `3 * pointcount`
/// coordinates.
pub fn points_from_buffer(point_buffer: &[Fixed], pointcount: usize) -> (r: Result<
    Vec<Vector3D>,
    CanvasError,
>)
    ensures
        r is Ok <==> point_buffer@.len() == 3 * pointcount,
        r matches Ok(ps) ==> ps@ == buffer_points(point_buffer@),
        r matches Err(e) ==> e == CanvasError::InvalidBuffer,
{
    let n = point_buffer.len();
    if n % 3 != 0 || n / 3 != pointcount {
        return Err(CanvasError::InvalidBuffer);
    }
    let mut points: Vec<Vector3D> = Vec::new();
    let mut i: usize = 0;
    while i < pointcount
        invariant
            i <= pointcount,
            n == point_buffer@.len(),
            n == 3 * pointcount,
            points@ == Seq::new(
                i as nat,
                |k: int|
                    Vector3D {
                        x: point_buffer@[3 * k],
                        y: point_buffer@[3 * k + 1],
                        z: point_buffer@[3 * k + 2],
                    },
            ),
        decreases pointcount - i,
    {
        let p = Vector3D {
            x: point_buffer[3 * i],
            y: point_buffer[3 * i + 1],
            z: point_buffer[3 * i + 2],
        };
        points.push(p);
        i = i + 1;
        assert(points@ =~= Seq::new(
            i as nat,
            |k: int|
                Vector3D {
                    x: point_buffer@[3 * k],
                    y: point_buffer@[3 * k + 1],
                    z: point_buffer@[3 * k + 2],
                },
        ));
    }
    assert(points@ =~= buffer_points(point_buffer@));
    Ok(points)
}

/// Plots the points of a flat coordinate buffer as a scatter plot, without
/// rotation, in `color` or in black if none is given. Returns the canvas and
/// the number of points skipped because they lie in the camera plane. Fails
/// exactly when the buffer does not hold `3 * pointcount` coordinates.
pub fn plot3d_scatter(point_buffer: &[Fixed], pointcount: usize, color: Option<RgbaStruct>) -> (r:
    Result<(ImageCanvas, usize), CanvasError>)
    ensures
        r is Ok <==> point_buffer@.len() == 3 * pointcount,
        r matches Ok(plot) ==> plot.0@ == fresh(512, 512, white()).with_points(
            buffer_points(point_buffer@),
            color_or_black(color),
            RotationView::identity(),
        ) && plot.1 == singular_points(buffer_points(point_buffer@), RotationView::identity()),
        r matches Err(e) ==> e == CanvasError::InvalidBuffer,
{
    let points = match points_from_buffer(point_buffer, pointcount) {
        Ok(ps) => ps,
        Err(e) => {
            return Err(e);
        },
    };
    let ink = match color {
        Some(c) => c,
        None => RgbaStruct { r: 0, g: 0, b: 0, a: 255 },
    };
    let mut img = blank_plot();
    let skipped = img.draw_points3d(&points, ink, &AxesRotation::identity());
    Ok((img, skipped))
}

} // verus!
