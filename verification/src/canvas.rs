use crate::color::Color;
use crate::geometry::{
    abs, clamp_i32, div_toward_zero, divide_toward_zero, lemma_div_toward_zero, to_i32_clamped,
    Point, Rectangle,
};
use vstd::arithmetic::div_mod::{lemma_fundamental_div_mod, lemma_fundamental_div_mod_converse};
use vstd::prelude::*;

verus! {

/// Smallest zoom factor a canvas accepts, in thousandths.
pub const MIN_ZOOM: i32 = 300;

/// Largest zoom factor a canvas accepts, in thousandths.
pub const MAX_ZOOM: i32 = 5000;

/// Zoom factor of a fresh canvas: one canvas pixel per screen pixel.
pub const DEFAULT_ZOOM: i32 = 1000;

/// Edge length of the canvas that `Canvas::default` makes.
pub const DEFAULT_SIZE: usize = 500;

/// The flat color that fills a fresh canvas.
pub open spec fn background_color() -> Color {
    Color { r: 97, g: 152, b: 219, a: 255 }
}

/// Computes [`background_color`].
pub fn background() -> (c: Color)
    ensures
        c == background_color(),
{
    Color { r: 97, g: 152, b: 219, a: 255 }
}

/// The zoom factor nearest to `zoom` inside `[MIN_ZOOM, MAX_ZOOM]`.
pub open spec fn clamp_zoom(zoom: int) -> int {
    if zoom < MIN_ZOOM {
        MIN_ZOOM as int
    } else if zoom > MAX_ZOOM {
        MAX_ZOOM as int
    } else {
        zoom
    }
}

/// The pan offset, along one axis, that shows under the screen coordinate
/// `mouse` at zoom `new_zoom` what showed there at zoom `old_zoom` with the
/// pan offset `offset`, held to the range of an `i32`.
pub open spec fn offset_about(offset: int, mouse: int, old_zoom: int, new_zoom: int) -> int {
    clamp_i32(div_toward_zero((mouse + offset) * new_zoom, old_zoom) - mouse)
}

/// What a canvas is, mathematically: its size, its bytes and its view
/// parameters.
pub struct CanvasView {
    pub width: nat,
    pub height: nat,
    /// RGBA8, row-major, origin top-left, `width * 4` bytes per row.
    pub pixels: Seq<u8>,
    pub zoom: int,
    pub rotation: int,
    pub offset: Point,
    pub bounds: Option<Rectangle>,
}

impl CanvasView {
    /// The buffer holds four bytes for each pixel and the zoom is in range.
    pub open spec fn wf(self) -> bool {
        &&& self.pixels.len() == self.width * self.height * 4
        &&& MIN_ZOOM <= self.zoom <= MAX_ZOOM
    }

    /// Column of the pixel that byte `k` of the buffer belongs to.
    pub open spec fn column_of(self, k: int) -> int {
        (k / 4) % (self.width as int)
    }

    /// Row of the pixel that byte `k` of the buffer belongs to.
    pub open spec fn row_of(self, k: int) -> int {
        (k / 4) / (self.width as int)
    }

    /// Index of the first byte of pixel `(x, y)`.
    pub open spec fn byte_index(self, x: int, y: int) -> int {
        (y * self.width + x) * 4
    }

    /// The color stored at pixel `(x, y)`.
    pub open spec fn pixel(self, x: int, y: int) -> Color {
        let i = self.byte_index(x, y);
        Color {
            r: self.pixels[i],
            g: self.pixels[i + 1],
            b: self.pixels[i + 2],
            a: self.pixels[i + 3],
        }
    }

    /// The canvas after pixel `(x, y)` was overwritten with `color`; the same
    /// canvas where `(x, y)` lies outside of it.
    pub open spec fn with_pixel(self, x: int, y: int, color: Color) -> CanvasView {
        if 0 <= x < self.width && 0 <= y < self.height {
            CanvasView {
                pixels: Seq::new(
                    self.pixels.len(),
                    |k: int|
                        if self.column_of(k) == x && self.row_of(k) == y {
                            color.channel(k % 4)
                        } else {
                            self.pixels[k]
                        },
                ),
                ..self
            }
        } else {
            self
        }
    }

    /// The canvas zoomed to `zoom`, held to the accepted range, about the
    /// screen point `mouse`: the pan offset changes with the zoom so that
    /// what shows under `mouse` stays there.
    pub open spec fn zoomed_about(self, zoom: int, mouse: Point) -> CanvasView {
        let new_zoom = clamp_zoom(zoom);
        CanvasView {
            zoom: new_zoom,
            offset: Point {
                x: offset_about(self.offset.x as int, mouse.x as int, self.zoom, new_zoom) as i32,
                y: offset_about(self.offset.y as int, mouse.y as int, self.zoom, new_zoom) as i32,
            },
            ..self
        }
    }
}

/// Zooming about a screen point keeps in place what shows there. The view
/// turns the canvas about its center, scales it by the zoom and then pans by
/// the offset, so the point of the turned canvas that shows at `mouse` is
/// `(mouse + offset) / zoom`: that point is the same before and after, up to
/// the rounding of the new offset to a whole thousandth. This holds wherever
/// the new offset fits the range of an `i32`.
pub proof fn lemma_zoom_keeps_point_under_cursor(v: CanvasView, zoom: int, mouse: Point)
    requires
        v.wf(),
        i32::MIN <= div_toward_zero((mouse.x + v.offset.x) * clamp_zoom(zoom), v.zoom) - mouse.x
            <= i32::MAX,
        i32::MIN <= div_toward_zero((mouse.y + v.offset.y) * clamp_zoom(zoom), v.zoom) - mouse.y
            <= i32::MAX,
    ensures
        v.zoomed_about(zoom, mouse).wf(),
        abs(
            v.zoom * (mouse.x + v.zoomed_about(zoom, mouse).offset.x) - v.zoomed_about(
                zoom,
                mouse,
            ).zoom * (mouse.x + v.offset.x),
        ) < v.zoom,
        abs(
            v.zoom * (mouse.y + v.zoomed_about(zoom, mouse).offset.y) - v.zoomed_about(
                zoom,
                mouse,
            ).zoom * (mouse.y + v.offset.y),
        ) < v.zoom,
{
    let z = clamp_zoom(zoom);
    lemma_zoom_axis(v.offset.x as int, mouse.x as int, v.zoom, z);
    lemma_zoom_axis(v.offset.y as int, mouse.y as int, v.zoom, z);
}

/// `lemma_zoom_keeps_point_under_cursor` along one axis.
proof fn lemma_zoom_axis(offset: int, mouse: int, old_zoom: int, new_zoom: int)
    requires
        0 < old_zoom,
        i32::MIN <= div_toward_zero((mouse + offset) * new_zoom, old_zoom) - mouse <= i32::MAX,
    ensures
        abs(
            old_zoom * (mouse + offset_about(offset, mouse, old_zoom, new_zoom)) - new_zoom * (mouse
                + offset),
        ) < old_zoom,
{
    let scaled = (mouse + offset) * new_zoom;
    let q = div_toward_zero(scaled, old_zoom);
    lemma_div_toward_zero(scaled, old_zoom);
    assert(offset_about(offset, mouse, old_zoom, new_zoom) == q - mouse);
    assert(old_zoom * (mouse + (q - mouse)) == old_zoom * q) by (nonlinear_arith);
    assert(new_zoom * (mouse + offset) == scaled) by (nonlinear_arith)
        requires
            scaled == (mouse + offset) * new_zoom,
    ;
}

/// The logical pixel surface together with its view transform parameters.
#[derive(Debug)]
pub struct Canvas {
    width: usize,
    height: usize,
    pixels: Vec<u8>,
    zoom: i32,
    rotation: i32,
    offset: Point,
    bounds: Option<Rectangle>,
}

impl View for Canvas {
    type V = CanvasView;

    closed spec fn view(&self) -> CanvasView {
        CanvasView {
            width: self.width as nat,
            height: self.height as nat,
            pixels: self.pixels@,
            zoom: self.zoom as int,
            rotation: self.rotation as int,
            offset: self.offset,
            bounds: self.bounds,
        }
    }
}

/// Byte `k` of pixel number `k / 4` belongs to `(x, y)` exactly when it is one
/// of the four bytes that start at that pixel's index.
pub proof fn lemma_byte_of_pixel(v: CanvasView, x: int, y: int, k: int)
    requires
        0 <= x < v.width,
        0 <= y,
        0 <= k,
    ensures
        (v.column_of(k) == x && v.row_of(k) == y) <==> (v.byte_index(x, y) <= k < v.byte_index(
            x,
            y,
        ) + 4),
{
    let w = v.width as int;
    let q = k / 4;
    lemma_fundamental_div_mod(q, w);
    if q == y * w + x {
        lemma_fundamental_div_mod_converse(q, w, y, x);
    }
    assert(w * y == y * w) by (nonlinear_arith);
    assert(w * (q / w) == (q / w) * w) by (nonlinear_arith);
}

/// A pixel inside the canvas has all four of its bytes inside the buffer.
pub proof fn lemma_pixel_in_buffer(v: CanvasView, x: int, y: int)
    requires
        v.pixels.len() == v.width * v.height * 4,
        0 <= x < v.width,
        0 <= y < v.height,
    ensures
        0 <= v.byte_index(x, y),
        v.byte_index(x, y) + 4 <= v.pixels.len(),
        y * v.width + x < v.width * v.height,
{
    let w = v.width as int;
    let h = v.height as int;
    assert(0 <= y * w && y * w + w <= w * h) by (nonlinear_arith)
        requires
            0 <= y < h,
            0 <= w,
    ;
}

impl Canvas {
    /// The invariant of every canvas that this module hands out.
    pub open spec fn wf(&self) -> bool {
        self@.wf()
    }

    /// A canvas of the given size, every pixel set to the background color,
    /// at zoom one, unrotated, unpanned and not yet placed on screen.
    pub fn new(width: usize, height: usize) -> (canvas: Canvas)
        requires
            width * height * 4 <= usize::MAX,
        ensures
            canvas.wf(),
            canvas@.width == width,
            canvas@.height == height,
            canvas@.pixels == Seq::new(
                (width * height * 4) as nat,
                |k: int| background_color().channel(k % 4),
            ),
            forall|x: int, y: int|
                0 <= x < width && 0 <= y < height ==> #[trigger] canvas@.pixel(x, y)
                    == background_color(),
            canvas@.zoom == DEFAULT_ZOOM,
            canvas@.rotation == 0,
            canvas@.offset == (Point { x: 0, y: 0 }),
            canvas@.bounds.is_none(),
    {
        let color = background();
        assert(width * height <= width * height * 4) by (nonlinear_arith);
        let count: usize = width * height;
        let mut pixels: Vec<u8> = Vec::new();
        let mut i: usize = 0;
        while i < count
            invariant
                i <= count,
                count * 4 <= usize::MAX,
                color == background_color(),
                pixels@.len() == i * 4,
                forall|k: int| 0 <= k < pixels@.len() ==> pixels@[k] == color.channel(k % 4),
            decreases count - i,
        {
            pixels.push(color.r);
            pixels.push(color.g);
            pixels.push(color.b);
            pixels.push(color.a);
            i = i + 1;
        }
        assert(pixels@ =~= Seq::new(
            (width * height * 4) as nat,
            |k: int| background_color().channel(k % 4),
        ));
        let canvas = Canvas {
            width,
            height,
            pixels,
            zoom: DEFAULT_ZOOM,
            rotation: 0,
            offset: Point { x: 0, y: 0 },
            bounds: None,
        };
        assert forall|x: int, y: int| 0 <= x < width && 0 <= y < height implies #[trigger] canvas@.pixel(
            x,
            y,
        ) == background_color() by {
            lemma_pixel_in_buffer(canvas@, x, y);
            let i = canvas@.byte_index(x, y);
            assert(i % 4 == 0 && (i + 1) % 4 == 1 && (i + 2) % 4 == 2 && (i + 3) % 4 == 3);
        }
        canvas
    }

    /// `Canvas::new` for a size whose pixel buffer can be addressed, `None`
    /// for any other.
    pub fn try_new(width: usize, height: usize) -> (made: Option<Canvas>)
        ensures
            made.is_some() == (width * height * 4 <= usize::MAX),
            made.is_some() ==> {
                let canvas = made.unwrap();
                &&& canvas.wf()
                &&& canvas@.width == width
                &&& canvas@.height == height
                &&& canvas@.pixels == Seq::new(
                    (width * height * 4) as nat,
                    |k: int| background_color().channel(k % 4),
                )
                &&& canvas@.zoom == DEFAULT_ZOOM
                &&& canvas@.rotation == 0
                &&& canvas@.offset == (Point { x: 0, y: 0 })
                &&& canvas@.bounds.is_none()
            },
    {
        assert(0 <= width * height) by (nonlinear_arith);
        match width.checked_mul(height) {
            Some(count) => match count.checked_mul(4) {
                Some(_) => Some(Canvas::new(width, height)),
                None => None,
            },
            None => None,
        }
    }

    pub fn width(&self) -> (w: usize)
        ensures
            w == self@.width,
    {
        self.width
    }

    pub fn height(&self) -> (h: usize)
        ensures
            h == self@.height,
    {
        self.height
    }

    /// The zoom factor, in thousandths.
    pub fn zoom(&self) -> (z: i32)
        ensures
            z == self@.zoom,
    {
        self.zoom
    }

    /// The rotation about the canvas center, in thousandths of a radian.
    pub fn rotation(&self) -> (r: i32)
        ensures
            r == self@.rotation,
    {
        self.rotation
    }

    /// The pan offset, in thousandths of a screen pixel.
    pub fn offset(&self) -> (o: Point)
        ensures
            o == self@.offset,
    {
        self.offset
    }

    /// The on-screen placement of the canvas widget, once it is known.
    pub fn bounds(&self) -> (b: Option<Rectangle>)
        ensures
            b == self@.bounds,
    {
        self.bounds
    }

    /// The pixel buffer in the layout that a texture upload takes.
    pub fn pixels(&self) -> (p: &Vec<u8>)
        ensures
            p@ == self@.pixels,
    {
        &self.pixels
    }

    /// Overwrites the four bytes of pixel `(x, y)`. A pixel outside the
    /// canvas is left alone, and so is everything else.
    pub fn draw_pixel(&mut self, x: usize, y: usize, color: Color)
        requires
            old(self).wf(),
        ensures
            final(self).wf(),
            final(self)@ == old(self)@.with_pixel(x as int, y as int, color),
            x >= old(self)@.width || y >= old(self)@.height ==> final(self)@ == old(self)@,
            x < old(self)@.width && y < old(self)@.height ==> final(self)@.pixel(
                x as int,
                y as int,
            ) == color,
    {
        if x >= self.width || y >= self.height {
            return ;
        }
        let len: usize = self.pixels.len();
        proof {
            lemma_pixel_in_buffer(self@, x as int, y as int);
            assert(0 <= y * self.width) by (nonlinear_arith);
            assert(len == self.width * self.height * 4);
        }
        let position: usize = (y * self.width + x) * 4;
        self.pixels[position] = color.r;
        self.pixels[position + 1] = color.g;
        self.pixels[position + 2] = color.b;
        self.pixels[position + 3] = color.a;
        proof {
            let before = old(self)@;
            let expected = before.with_pixel(x as int, y as int, color);
            assert forall|k: int| 0 <= k < expected.pixels.len() implies self@.pixels[k]
                == expected.pixels[k] by {
                lemma_byte_of_pixel(before, x as int, y as int, k);
            }
            assert(self@.pixels =~= expected.pixels);
        }
    }

    /// Sets the zoom factor, held to `[MIN_ZOOM, MAX_ZOOM]`.
    pub fn set_zoom(&mut self, zoom: i32)
        requires
            old(self).wf(),
        ensures
            final(self).wf(),
            MIN_ZOOM <= final(self)@.zoom <= MAX_ZOOM,
            final(self)@ == (CanvasView { zoom: clamp_zoom(zoom as int), ..old(self)@ }),
    {
        self.zoom = if zoom < MIN_ZOOM {
            MIN_ZOOM
        } else if zoom > MAX_ZOOM {
            MAX_ZOOM
        } else {
            zoom
        };
    }

    /// Sets the zoom factor, held to `[MIN_ZOOM, MAX_ZOOM]`, and moves the
    /// pan offset so that what shows under the screen point
    /// `(mouse_x, mouse_y)` stays there.
    pub fn zoom_relative_to_point(&mut self, zoom: i32, mouse_x: i32, mouse_y: i32)
        requires
            old(self).wf(),
        ensures
            final(self).wf(),
            final(self)@ == old(self)@.zoomed_about(
                zoom as int,
                Point { x: mouse_x, y: mouse_y },
            ),
    {
        let old_zoom: i64 = self.zoom as i64;
        let offset = self.offset;
        self.set_zoom(zoom);
        let new_zoom: i64 = self.zoom as i64;
        self.offset = Point {
            x: Canvas::offset_for(offset.x, mouse_x, old_zoom, new_zoom),
            y: Canvas::offset_for(offset.y, mouse_y, old_zoom, new_zoom),
        };
    }

    /// Computes [`offset_about`].
    fn offset_for(offset: i32, mouse: i32, old_zoom: i64, new_zoom: i64) -> (moved: i32)
        requires
            MIN_ZOOM <= old_zoom <= MAX_ZOOM,
            MIN_ZOOM <= new_zoom <= MAX_ZOOM,
        ensures
            moved == offset_about(offset as int, mouse as int, old_zoom as int, new_zoom as int),
    {
        let sum: i64 = mouse as i64 + offset as i64;
        assert(-0x1_0000_0000 * 5000 <= sum * new_zoom <= 0x1_0000_0000 * 5000)
            by (nonlinear_arith)
            requires
                -0x1_0000_0000 <= sum <= 0x1_0000_0000,
                300 <= new_zoom <= 5000,
        ;
        let scaled: i64 = sum * new_zoom;
        proof {
            lemma_div_toward_zero(scaled as int, old_zoom as int);
        }
        let quotient: i64 = divide_toward_zero(scaled, old_zoom);
        to_i32_clamped(quotient - mouse as i64)
    }

    /// Moves the pan offset by `(dx, dy)`; a component that would leave the
    /// range of an `i32` stops at the nearest end of it.
    pub fn apply_offset(&mut self, dx: i32, dy: i32)
        ensures
            final(self)@ == (CanvasView {
                offset: Point {
                    x: clamp_i32(old(self)@.offset.x + dx) as i32,
                    y: clamp_i32(old(self)@.offset.y + dy) as i32,
                },
                ..old(self)@
            }),
    {
        self.offset = Point {
            x: to_i32_clamped(self.offset.x as i64 + dx as i64),
            y: to_i32_clamped(self.offset.y as i64 + dy as i64),
        };
    }

    /// Replaces the pan offset.
    pub fn set_offset(&mut self, offset_x: i32, offset_y: i32)
        ensures
            final(self)@ == (CanvasView {
                offset: Point { x: offset_x, y: offset_y },
                ..old(self)@
            }),
    {
        self.offset = Point { x: offset_x, y: offset_y };
    }

    /// Turns the canvas about its center by `delta` thousandths of a radian;
    /// a rotation that would leave the range of an `i32` stops at the nearest
    /// end of it.
    pub fn apply_rotation(&mut self, delta: i32)
        ensures
            final(self)@ == (CanvasView {
                rotation: clamp_i32(old(self)@.rotation + delta),
                ..old(self)@
            }),
    {
        self.rotation = to_i32_clamped(self.rotation as i64 + delta as i64);
    }

    /// Records where on screen the canvas widget lies.
    pub fn set_bounds(&mut self, x: i32, y: i32, width: i32, height: i32)
        ensures
            final(self)@ == (CanvasView {
                bounds: Some(Rectangle { x, y, width, height }),
                ..old(self)@
            }),
    {
        self.bounds = Some(Rectangle { x, y, width, height });
    }

    /// Whether `point` falls on the canvas widget. Before the widget was
    /// placed no point does.
    pub fn is_within_bounds(&self, point: Point) -> (inside: bool)
        ensures
            inside == (self@.bounds.is_some() && self@.bounds.unwrap().spec_contains(point)),
    {
        match self.bounds {
            Some(bounds) => bounds.contains(point),
            None => false,
        }
    }

    /// The position of a screen point relative to the widget's top-left
    /// corner, or `None` for a point that is not on the widget.
    pub fn convert_to_canvas_coords(&self, point: Point) -> (local: Option<Point>)
        ensures
            local.is_some() == (self@.bounds.is_some() && self@.bounds.unwrap().spec_contains(
                point,
            )),
            local.is_some() ==> local.unwrap() == (Point {
                x: (point.x - self@.bounds.unwrap().x) as i32,
                y: (point.y - self@.bounds.unwrap().y) as i32,
            }) && 0 <= point.x - self@.bounds.unwrap().x < self@.bounds.unwrap().width && 0
                <= point.y - self@.bounds.unwrap().y < self@.bounds.unwrap().height,
    {
        match self.bounds {
            Some(bounds) => {
                if bounds.contains(point) {
                    Some(Point { x: point.x - bounds.x, y: point.y - bounds.y })
                } else {
                    None
                }
            },
            None => None,
        }
    }
}

impl Default for Canvas {
    /// The canvas of `DEFAULT_SIZE` by `DEFAULT_SIZE` pixels.
    fn default() -> (canvas: Canvas)
        ensures
            canvas.wf(),
            canvas@.width == DEFAULT_SIZE,
            canvas@.height == DEFAULT_SIZE,
            canvas@.pixels == Seq::new(
                (DEFAULT_SIZE * DEFAULT_SIZE * 4) as nat,
                |k: int| background_color().channel(k % 4),
            ),
            forall|x: int, y: int|
                0 <= x < DEFAULT_SIZE && 0 <= y < DEFAULT_SIZE ==> #[trigger] canvas@.pixel(x, y)
                    == background_color(),
            canvas@.zoom == DEFAULT_ZOOM,
            canvas@.rotation == 0,
            canvas@.offset == (Point { x: 0, y: 0 }),
            canvas@.bounds.is_none(),
    {
        Canvas::new(DEFAULT_SIZE, DEFAULT_SIZE)
    }
}

} // verus!
