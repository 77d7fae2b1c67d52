//! Software rasterizer for antialiased lines, ellipses and projected 3D point
//! clouds, drawing onto an RGBA canvas.
//!
//! All geometry is computed in exact integer arithmetic: normalized
//! coordinates are signed fixed-point numbers with 24 fractional bits
//! ([`Fixed`]), and every rounding step is part of the stated contracts.
//!
//! - [`canvas`] holds the drawing surface and its two ways of writing a
//!   pixel, replacing and compositing.
//! - [`line`] and [`ellipse`] turn a shape into the list of pixels to write.
//! - [`projection`] takes points in space to points on the canvas.
//! - [`scene`] draws shapes and whole scenes onto a canvas.
//! - [`plot`] offers ready-made plots on a 512 by 512 canvas.

pub mod arith;
pub mod canvas;
pub mod color;
pub mod ellipse;
pub mod fixed;
pub mod line;
pub mod plot;
pub mod projection;
pub mod scene;
pub mod scene2d;
pub mod scene3d;

pub use canvas::{CanvasError, ImageCanvas, PixelWrite};
pub use color::RgbaStruct;
pub use ellipse::draw_ellipse;
pub use fixed::Fixed;
pub use line::draw_line2d_antialiased;
pub use plot::{plot3d_scatter, points_from_buffer, subroutine1};
pub use projection::project_points;
pub use scene::{Canvas, Scene};
pub use scene2d::{Ellipse2D, Line2D, Shape2D};
pub use scene3d::{AxesRotation, Shape3D, Vector3D};
