//! The drawing surface: a fixed-size grid of RGBA pixels.

use vstd::prelude::*;
use crate::arith::{
    div_round, lemma_div_mod_unique, lemma_mul_bounds, lemma_round_div_exact, round_div,
};
use crate::color::{blend_over, RgbaStruct};
use crate::fixed::{device_coord, scale, Fixed};

verus! {

/// Pixel storage, kept in an `image::ImageBuffer` of RGBA bytes. Verified code
/// reaches it only through the `buffer_*` functions below.
#[verifier::external_body]
pub struct RgbaBuffer {
    buf: image::ImageBuffer<image::Rgba<u8>, Vec<u8>>,
}

/// The pixels that a buffer holds, keyed by `(column, row)`; row 0 is the
/// top row.
pub uninterp spec fn buffer_pixels(b: RgbaBuffer) -> Map<(int, int), RgbaStruct>;

/// The `(width, height)` that a buffer was made with.
pub uninterp spec fn buffer_dimensions(b: RgbaBuffer) -> (u32, u32);

/// Whether `(x, y)` names a pixel of a `width` by `height` grid.
pub open spec fn in_grid(width: int, height: int, x: int, y: int) -> bool {
    0 <= x < width && 0 <= y < height
}

/// A `width` by `height` grid in which every pixel is `color`.
pub open spec fn uniform_pixels(width: int, height: int, color: RgbaStruct) -> Map<
    (int, int),
    RgbaStruct,
> {
    Map::new(|p: (int, int)| in_grid(width, height, p.0, p.1), |p: (int, int)| color)
}

/// Calls `ImageBuffer::from_pixel`. It allocates `4 * width * height` bytes
/// and panics when that count does not fit a vector, which `requires` rules
/// out. The buffer it returns has the given dimensions and holds `color` at
/// every coordinate inside them.
#[verifier::external_body]
fn buffer_from_pixel(width: u32, height: u32, color: RgbaStruct) -> (b: RgbaBuffer)
    requires
        4 * width * height <= isize::MAX,
    ensures
        buffer_dimensions(b) == (width, height),
        buffer_pixels(b) == uniform_pixels(width as int, height as int, color),
{
    let px = image::Rgba([color.r, color.g, color.b, color.a]);
    RgbaBuffer { buf: image::ImageBuffer::from_pixel(width, height, px) }
}

/// Calls `ImageBuffer::dimensions`, which returns the width and height the
/// buffer was made with.
#[verifier::external_body]
fn buffer_size(b: &RgbaBuffer) -> (d: (u32, u32))
    ensures
        d == buffer_dimensions(*b),
{
    b.buf.dimensions()
}

/// Calls `ImageBuffer::get_pixel`. It panics outside the dimensions, which
/// `requires` rules out, and otherwise returns the pixel stored at `(x, y)`.
#[verifier::external_body]
fn buffer_get(b: &RgbaBuffer, x: u32, y: u32) -> (px: RgbaStruct)
    requires
        x < buffer_dimensions(*b).0,
        y < buffer_dimensions(*b).1,
    ensures
        px == buffer_pixels(*b)[(x as int, y as int)],
{
    let p = b.buf.get_pixel(x, y);
    RgbaStruct { r: p.0[0], g: p.0[1], b: p.0[2], a: p.0[3] }
}

/// Calls `ImageBuffer::put_pixel`. It panics outside the dimensions, which
/// `requires` rules out, and otherwise replaces the pixel stored at `(x, y)`,
/// leaving every other pixel and the dimensions as they were.
#[verifier::external_body]
fn buffer_put(b: &mut RgbaBuffer, x: u32, y: u32, color: RgbaStruct)
    requires
        x < buffer_dimensions(*old(b)).0,
        y < buffer_dimensions(*old(b)).1,
    ensures
        buffer_dimensions(*final(b)) == buffer_dimensions(*old(b)),
        buffer_pixels(*final(b)) == buffer_pixels(*old(b)).insert((x as int, y as int), color),
{
    b.buf.put_pixel(x, y, image::Rgba([color.r, color.g, color.b, color.a]));
}

/// Why a canvas could not be made.
#[derive(Clone, Copy, Debug, PartialEq, Eq, Structural)]
pub enum CanvasError {
    /// The width or the height is zero, or the pixels would take more than
    /// `isize::MAX` bytes, the most that can be allocated at once.
    InvalidDimensions,
    /// A coordinate buffer does not hold three coordinates for each point.
    InvalidBuffer,
}

/// The mathematical content of a canvas.
pub struct CanvasView {
    pub width: nat,
    pub height: nat,
    /// Keyed by `(column, row)`, row 0 at the top.
    pub pixels: Map<(int, int), RgbaStruct>,
}

/// One pixel to be written, in device coordinates: `x` counts columns from
/// the left edge and `y` counts rows upward from the bottom edge, so that the
/// normalized point `(x / width, y / height)` lands on it.
#[derive(Clone, Copy, Debug, PartialEq, Eq, Structural)]
pub struct PixelWrite {
    pub x: i64,
    pub y: i64,
    pub color: RgbaStruct,
}

/// The column that the normalized abscissa `x` falls in: `x * width`, rounded.
pub open spec fn device_column(x: Fixed, width: int) -> int {
    device_coord(x, width)
}

/// The storage row that the normalized ordinate `y` falls in. Normalized
/// ordinates grow upward while rows are stored top first, so this is
/// `(1 - y) * height`, rounded.
pub open spec fn device_row(y: Fixed, height: int) -> int {
    round_div((scale() - y.raw) * height, scale())
}

impl CanvasView {
    /// Every coordinate inside the dimensions, and no other, has a pixel.
    pub open spec fn wf(self) -> bool {
        &&& self.width > 0
        &&& self.height > 0
        &&& self.pixels.dom() =~= Set::new(
            |p: (int, int)| in_grid(self.width as int, self.height as int, p.0, p.1),
        )
    }

    /// The canvas after storing `color` at column `x`, row `y`. A coordinate
    /// outside the canvas is discarded.
    pub open spec fn put(self, x: int, y: int, color: RgbaStruct) -> CanvasView {
        if in_grid(self.width as int, self.height as int, x, y) {
            CanvasView { pixels: self.pixels.insert((x, y), color), ..self }
        } else {
            self
        }
    }

    /// The canvas after compositing `color` over the pixel at column `x`, row
    /// `y`. A coordinate outside the canvas is discarded.
    pub open spec fn put_blended(self, x: int, y: int, color: RgbaStruct) -> CanvasView {
        if in_grid(self.width as int, self.height as int, x, y) {
            CanvasView {
                pixels: self.pixels.insert((x, y), blend_over(color, self.pixels[(x, y)])),
                ..self
            }
        } else {
            self
        }
    }

    /// The canvas after one write in device coordinates: `w.color` replaces
    /// (or, if `blended`, is composited over) the pixel in column `w.x` of
    /// storage row `height - w.y`.
    pub open spec fn plot(self, w: PixelWrite, blended: bool) -> CanvasView {
        if blended {
            self.put_blended(w.x as int, self.height - w.y, w.color)
        } else {
            self.put(w.x as int, self.height - w.y, w.color)
        }
    }

    /// The canvas after the writes `ws`, applied first to last.
    pub open spec fn plot_all(self, ws: Seq<PixelWrite>, blended: bool) -> CanvasView
        decreases ws.len(),
    {
        if ws.len() == 0 {
            self
        } else {
            self.plot_all(ws.drop_last(), blended).plot(ws.last(), blended)
        }
    }
}

/// No sequence of writes changes the dimensions of a canvas or the set of
/// coordinates that have a pixel.
pub proof fn lemma_plot_all_keeps_shape(c: CanvasView, ws: Seq<PixelWrite>, blended: bool)
    ensures
        c.plot_all(ws, blended).width == c.width,
        c.plot_all(ws, blended).height == c.height,
        c.wf() ==> c.plot_all(ws, blended).wf(),
    decreases ws.len(),
{
    if ws.len() > 0 {
        lemma_plot_all_keeps_shape(c, ws.drop_last(), blended);
    }
}

/// A write in device coordinates changes the pixel that a write at the
/// corresponding normalized point changes: device column `x` and device row
/// `y` are the point `(x / width, y / height)`.
pub proof fn lemma_plot_is_draw(c: CanvasView, w: PixelWrite, x: Fixed, y: Fixed, blended: bool)
    requires
        x.raw * c.width == w.x * scale(),
        y.raw * c.height == w.y * scale(),
    ensures
        !blended ==> c.plot(w, blended) == c.put(
            device_column(x, c.width as int),
            device_row(y, c.height as int),
            w.color,
        ),
        blended ==> c.plot(w, blended) == c.put_blended(
            device_column(x, c.width as int),
            device_row(y, c.height as int),
            w.color,
        ),
{
    lemma_round_div_exact(w.x as int, scale());
    lemma_round_div_exact(c.height - w.y, scale());
    assert((scale() - y.raw) * c.height == (c.height - w.y) * scale()) by (nonlinear_arith)
        requires
            y.raw * c.height == w.y * scale(),
    ;
}

/// Writes that all fall outside the canvas leave it as it was.
pub proof fn lemma_plot_all_outside(c: CanvasView, ws: Seq<PixelWrite>, blended: bool)
    requires
        forall|i: int|
            0 <= i < ws.len() ==> !in_grid(
                c.width as int,
                c.height as int,
                (#[trigger] ws[i]).x as int,
                c.height - ws[i].y,
            ),
    ensures
        c.plot_all(ws, blended) == c,
    decreases ws.len(),
{
    if ws.len() > 0 {
        lemma_plot_all_outside(c, ws.drop_last(), blended);
        assert(ws.drop_last().len() == ws.len() - 1);
        assert(ws.last() == ws[ws.len() - 1]);
    }
}

/// No writes leave the canvas as it was.
pub proof fn lemma_plot_nothing(c: CanvasView, blended: bool)
    ensures
        c.plot_all(Seq::empty(), blended) == c,
{
}

/// Channel `k` of a color in storage order: red, green, blue, alpha.
pub open spec fn channel(color: RgbaStruct, k: int) -> u8 {
    if k == 0 {
        color.r
    } else if k == 1 {
        color.g
    } else if k == 2 {
        color.b
    } else {
        color.a
    }
}

/// Byte `i` of a canvas written out row by row from the top, four bytes to
/// the pixel.
pub open spec fn rgba_byte(c: CanvasView, i: int) -> u8 {
    channel(c.pixels[((i / 4) % (c.width as int), (i / 4) / (c.width as int))], i % 4)
}

/// The canvas written out row by row from the top, four bytes to the pixel.
pub open spec fn rgba_bytes(c: CanvasView) -> Seq<u8> {
    Seq::new(4 * c.width * c.height, |i: int| rgba_byte(c, i))
}

/// A `width` by `height` canvas in which every pixel is `color`.
pub open spec fn fresh(width: nat, height: nat, color: RgbaStruct) -> CanvasView {
    CanvasView { width, height, pixels: uniform_pixels(width as int, height as int, color) }
}

/// Whether a canvas of these dimensions can be made.
pub open spec fn valid_dimensions(width: u32, height: u32) -> bool {
    width > 0 && height > 0 && 4 * width * height <= isize::MAX
}

/// A canvas of RGBA pixels with a fixed width and height.
pub struct ImageCanvas {
    img: RgbaBuffer,
}

impl View for ImageCanvas {
    type V = CanvasView;

    closed spec fn view(&self) -> CanvasView {
        CanvasView {
            width: buffer_dimensions(self.img).0 as nat,
            height: buffer_dimensions(self.img).1 as nat,
            pixels: buffer_pixels(self.img),
        }
    }
}

impl ImageCanvas {
    /// A canvas of the given size with every pixel set to `background`.
    /// Fails exactly when a dimension is zero or the pixels, at four bytes
    /// each, would take more than `isize::MAX` bytes.
    pub fn blank(x: u32, y: u32, background: RgbaStruct) -> (r: Result<ImageCanvas, CanvasError>)
        ensures
            valid_dimensions(x, y) <==> r is Ok,
            r matches Ok(c) ==> c@ == fresh(x as nat, y as nat, background) && c@.wf(),
            r matches Err(e) ==> e == CanvasError::InvalidDimensions,
    {
        if x == 0 || y == 0 {
            return Err(CanvasError::InvalidDimensions);
        }
        assert(4 * x * y <= 4 * 0xffff_ffff * 0xffff_ffff) by (nonlinear_arith)
            requires
                0 <= x <= 0xffff_ffff,
                0 <= y <= 0xffff_ffff,
        ;
        let bytes: u128 = 4 * (x as u128) * (y as u128);
        if bytes > isize::MAX as u128 {
            return Err(CanvasError::InvalidDimensions);
        }
        let img = buffer_from_pixel(x, y, background);
        Ok(ImageCanvas { img })
    }

    /// The width and height in pixels.
    pub fn dimensions(&self) -> (d: (u32, u32))
        ensures
            d.0 == self@.width,
            d.1 == self@.height,
    {
        buffer_size(&self.img)
    }

    /// The pixel in column `x` of storage row `y` (row 0 is the top), or
    /// `None` outside the canvas.
    pub fn get_pixel(&self, x: u32, y: u32) -> (r: Option<RgbaStruct>)
        ensures
            r is Some <==> in_grid(self@.width as int, self@.height as int, x as int, y as int),
            r matches Some(px) ==> px == self@.pixels[(x as int, y as int)],
    {
        let (w, h) = buffer_size(&self.img);
        if x < w && y < h {
            Some(buffer_get(&self.img, x, y))
        } else {
            None
        }
    }

    /// The pixels as bytes in storage order: rows from the top, pixels from
    /// the left, and red, green, blue, alpha within a pixel.
    pub fn to_rgba_bytes(&self) -> (out: Vec<u8>)
        ensures
            out@ == rgba_bytes(self@),
    {
        let (w, h) = buffer_size(&self.img);
        let mut out: Vec<u8> = Vec::new();
        let mut y: u32 = 0;
        assert(4 * (0 * w) == 0) by (nonlinear_arith);
        while y < h
            invariant
                y <= h,
                w == self@.width,
                h == self@.height,
                out@ == Seq::new((4 * (y * w)) as nat, |i: int| rgba_byte(self@, i)),
            decreases h - y,
        {
            let mut x: u32 = 0;
            while x < w
                invariant
                    x <= w,
                    y < h,
                    w == self@.width,
                    h == self@.height,
                    out@ == Seq::new((4 * (y * w + x)) as nat, |i: int| rgba_byte(self@, i)),
                decreases w - x,
            {
                let px = buffer_get(&self.img, x, y);
                let ghost p = y * w + x;
                proof {
                    assert(p >= 0) by (nonlinear_arith)
                        requires
                            p == y * w + x,
                            y >= 0,
                            w >= 0,
                            x >= 0,
                    ;
                    lemma_div_mod_unique(p, w as int, y as int, x as int);
                }
                out.push(px.r);
                out.push(px.g);
                out.push(px.b);
                out.push(px.a);
                proof {
                    assert((4 * p) / 4 == p && (4 * p) % 4 == 0);
                    assert((4 * p + 1) / 4 == p && (4 * p + 1) % 4 == 1);
                    assert((4 * p + 2) / 4 == p && (4 * p + 2) % 4 == 2);
                    assert((4 * p + 3) / 4 == p && (4 * p + 3) % 4 == 3);
                    assert(out@ =~= Seq::new((4 * (p + 1)) as nat, |i: int| rgba_byte(self@, i)));
                }
                x = x + 1;
            }
            proof {
                assert(y * w + w == (y + 1) * w) by (nonlinear_arith);
            }
            y = y + 1;
        }
        proof {
            assert(4 * (h * w) == 4 * self@.width * self@.height) by (nonlinear_arith)
                requires
                    w == self@.width,
                    h == self@.height,
            ;
        }
        out
    }

    /// Stores `color` in column `col` of storage row `row`, replacing the
    /// pixel or compositing over it; a coordinate outside the canvas is
    /// discarded.
    pub(crate) fn store(&mut self, col: i128, row: i128, color: RgbaStruct, blended: bool)
        ensures
            !blended ==> final(self)@ == old(self)@.put(col as int, row as int, color),
            blended ==> final(self)@ == old(self)@.put_blended(col as int, row as int, color),
    {
        let (w, h) = buffer_size(&self.img);
        if 0 <= col && col < w as i128 && 0 <= row && row < h as i128 {
            let x: u32 = col as u32;
            let y: u32 = row as u32;
            if blended {
                let under = buffer_get(&self.img, x, y);
                buffer_put(&mut self.img, x, y, color.over(under));
            } else {
                buffer_put(&mut self.img, x, y, color);
            }
        }
    }

    /// The column and storage row of the normalized point `(x, y)`.
    pub(crate) fn locate(&self, x: Fixed, y: Fixed) -> (at: (i128, i128))
        ensures
            at.0 == device_column(x, self@.width as int),
            at.1 == device_row(y, self@.height as int),
    {
        let (w, h) = buffer_size(&self.img);
        proof {
            lemma_mul_bounds(16777216 - y.raw, h as int, 0x8100_0000, 0xffff_ffff);
        }
        let col = x.to_device(w);
        let row = div_round((16777216 - y.raw as i128) * h as i128, 16777216);
        (col as i128, row)
    }

    /// Applies the writes `ws` in order, replacing pixels or, if `blended`,
    /// compositing over them. Writes outside the canvas are discarded.
    pub fn plot_all(&mut self, ws: &Vec<PixelWrite>, blended: bool)
        ensures
            final(self)@ == old(self)@.plot_all(ws@, blended),
    {
        let (w, h) = buffer_size(&self.img);
        let mut i: usize = 0;
        while i < ws.len()
            invariant
                i <= ws.len(),
                h == self@.height,
                self@ == old(self)@.plot_all(ws@.take(i as int), blended),
            decreases ws.len() - i,
        {
            let wr = ws[i];
            proof {
                assert(ws@.take(i + 1).drop_last() =~= ws@.take(i as int));
                assert(ws@.take(i + 1).last() == wr);
            }
            self.store(wr.x as i128, h as i128 - wr.y as i128, wr.color, blended);
            i += 1;
        }
        proof {
            assert(ws@.take(ws.len() as int) =~= ws@);
        }
    }
}

} // verus!
