pub mod lerp;
pub mod spacing;
pub mod stroke;

use crate::canvas::{lemma_byte_of_pixel, lemma_pixel_in_buffer, Canvas, CanvasView};
use crate::color::Color;
use vstd::arithmetic::div_mod::{lemma_mod_bound, lemma_multiply_divide_lt};
use vstd::prelude::*;

verus! {

/// Radius, in whole pixels, of the disk that a stroke stamps.
pub const BRUSH_RADIUS: u16 = 6;

/// The color that a stroke paints with.
pub open spec fn brush_color() -> Color {
    Color { r: 0, g: 0, b: 0, a: 255 }
}

/// Computes [`brush_color`].
pub fn brush() -> (c: Color)
    ensures
        c == brush_color(),
{
    Color { r: 0, g: 0, b: 0, a: 255 }
}

/// Pixel `(px, py)` lies in the closed disk about `(cx, cy)`.
pub open spec fn in_disk(px: int, py: int, cx: int, cy: int, radius: int) -> bool {
    (px - cx) * (px - cx) + (py - cy) * (py - cy) <= radius * radius
}

/// The canvas after one stamp: every pixel of the canvas that lies in the
/// disk carries `color`, every other byte is as before.
pub open spec fn stamped(v: CanvasView, cx: int, cy: int, radius: int, color: Color) -> CanvasView {
    CanvasView {
        pixels: Seq::new(
            v.pixels.len(),
            |k: int|
                if in_disk(v.column_of(k), v.row_of(k), cx, cy, radius) {
                    color.channel(k % 4)
                } else {
                    v.pixels[k]
                },
        ),
        ..v
    }
}

/// The part of the disk that a row-by-row sweep has passed when it stands at
/// column `x` of row `y`.
spec fn swept(px: int, py: int, cx: int, cy: int, radius: int, y: int, x: int) -> bool {
    in_disk(px, py, cx, cy, radius) && (py < y || (py == y && px < x))
}

/// The canvas in the middle of a stamp, when the sweep stands at `(x, y)`.
spec fn partly_stamped(
    v: CanvasView,
    cx: int,
    cy: int,
    radius: int,
    color: Color,
    y: int,
    x: int,
) -> CanvasView {
    CanvasView {
        pixels: Seq::new(
            v.pixels.len(),
            |k: int|
                if swept(v.column_of(k), v.row_of(k), cx, cy, radius, y, x) {
                    color.channel(k % 4)
                } else {
                    v.pixels[k]
                },
        ),
        ..v
    }
}

/// A disk lies inside the square that bounds it.
pub proof fn lemma_disk_in_square(px: int, py: int, cx: int, cy: int, radius: int)
    requires
        radius >= 0,
        in_disk(px, py, cx, cy, radius),
    ensures
        cx - radius <= px <= cx + radius,
        cy - radius <= py <= cy + radius,
{
    let dx = px - cx;
    let dy = py - cy;
    assert(-radius <= dx <= radius && -radius <= dy <= radius) by (nonlinear_arith)
        requires
            radius >= 0,
            dx * dx + dy * dy <= radius * radius,
    ;
}

/// Every byte of the buffer belongs to a pixel inside the canvas.
pub proof fn lemma_byte_in_canvas(v: CanvasView, k: int)
    requires
        v.pixels.len() == v.width * v.height * 4,
        0 <= k < v.pixels.len(),
    ensures
        0 <= v.column_of(k) < v.width,
        0 <= v.row_of(k) < v.height,
{
    let w = v.width as int;
    let h = v.height as int;
    let q = k / 4;
    assert(w > 0 && h > 0) by (nonlinear_arith)
        requires
            0 < w * h * 4,
            w >= 0,
            h >= 0,
    ;
    assert(q < w * h);
    lemma_mod_bound(q, w);
    lemma_multiply_divide_lt(q, w, h);
    assert(0 <= q / w) by (nonlinear_arith)
        requires
            0 <= q,
            0 < w,
    ;
}

/// What a stamp does to each pixel of the canvas: a pixel in the disk takes
/// the brush color, any other keeps its own.
pub proof fn lemma_stamped_pixel(
    v: CanvasView,
    cx: int,
    cy: int,
    radius: int,
    color: Color,
    x: int,
    y: int,
)
    requires
        v.pixels.len() == v.width * v.height * 4,
        0 <= x < v.width,
        0 <= y < v.height,
    ensures
        stamped(v, cx, cy, radius, color).pixel(x, y) == (if in_disk(x, y, cx, cy, radius) {
            color
        } else {
            v.pixel(x, y)
        }),
{
    let i = v.byte_index(x, y);
    lemma_pixel_in_buffer(v, x, y);
    lemma_byte_of_pixel(v, x, y, i);
    lemma_byte_of_pixel(v, x, y, i + 1);
    lemma_byte_of_pixel(v, x, y, i + 2);
    lemma_byte_of_pixel(v, x, y, i + 3);
    let after = stamped(v, cx, cy, radius, color);
    assert(after.byte_index(x, y) == i);
    assert(i % 4 == 0 && (i + 1) % 4 == 1 && (i + 2) % 4 == 2 && (i + 3) % 4 == 3);
}

/// Stamps a filled disk: every pixel of the canvas whose distance from
/// `(cx, cy)` is at most `radius` is overwritten with `color`. The part of
/// the disk that lies outside the canvas is dropped.
pub fn stamp(canvas: &mut Canvas, cx: i32, cy: i32, radius: u16, color: Color)
    requires
        old(canvas).wf(),
    ensures
        final(canvas).wf(),
        final(canvas)@ == stamped(old(canvas)@, cx as int, cy as int, radius as int, color),
{
    let r: i64 = radius as i64;
    let x0: i64 = cx as i64 - r;
    let x1: i64 = cx as i64 + r;
    let y0: i64 = cy as i64 - r;
    let y1: i64 = cy as i64 + r;
    let ghost start = canvas@;
    let ghost c = (cx as int, cy as int, radius as int);
    proof {
        assert forall|k: int| 0 <= k < start.pixels.len() implies start.pixels[k]
            == partly_stamped(start, c.0, c.1, c.2, color, y0 as int, x0 as int).pixels[k] by {
            if in_disk(start.column_of(k), start.row_of(k), c.0, c.1, c.2) {
                lemma_disk_in_square(start.column_of(k), start.row_of(k), c.0, c.1, c.2);
            }
        }
        assert(start.pixels =~= partly_stamped(
            start,
            c.0,
            c.1,
            c.2,
            color,
            y0 as int,
            x0 as int,
        ).pixels);
    }
    let mut y: i64 = y0;
    while y <= y1
        invariant
            y0 <= y <= y1 + 1,
            r == radius,
            x0 == cx - r,
            x1 == cx + r,
            y0 == cy - r,
            y1 == cy + r,
            c == (cx as int, cy as int, radius as int),
            start.wf(),
            canvas.wf(),
            canvas@ == partly_stamped(start, c.0, c.1, c.2, color, y as int, x0 as int),
        decreases y1 + 1 - y,
    {
        let mut x: i64 = x0;
        while x <= x1
            invariant
                y0 <= y <= y1,
                x0 <= x <= x1 + 1,
                r == radius,
                x0 == cx - r,
                x1 == cx + r,
                y0 == cy - r,
                y1 == cy + r,
                c == (cx as int, cy as int, radius as int),
                start.wf(),
                canvas.wf(),
                canvas@ == partly_stamped(start, c.0, c.1, c.2, color, y as int, x as int),
            decreases x1 + 1 - x,
        {
            let dx: i64 = x - cx as i64;
            let dy: i64 = y - cy as i64;
            assert(0 <= dx * dx <= 65535 * 65535 && 0 <= dy * dy <= 65535 * 65535 && 0 <= r * r <= 65535
                * 65535)
                by (nonlinear_arith)
                requires
                    -65535 <= dx <= 65535,
                    -65535 <= dy <= 65535,
                    0 <= r <= 65535,
            ;
            let ghost before = canvas@;
            if dx * dx + dy * dy <= r * r && x >= 0 && y >= 0 {
                canvas.draw_pixel(x as usize, y as usize, color);
            }
            proof {
                let after = partly_stamped(start, c.0, c.1, c.2, color, y as int, x + 1);
                assert forall|k: int| 0 <= k < after.pixels.len() implies canvas@.pixels[k]
                    == after.pixels[k] by {
                    lemma_byte_in_canvas(start, k);
                }
                assert(canvas@.pixels =~= after.pixels);
            }
            x = x + 1;
        }
        proof {
            let after = partly_stamped(start, c.0, c.1, c.2, color, y + 1, x0 as int);
            assert forall|k: int| 0 <= k < after.pixels.len() implies canvas@.pixels[k]
                == after.pixels[k] by {
                if in_disk(start.column_of(k), start.row_of(k), c.0, c.1, c.2) {
                    lemma_disk_in_square(start.column_of(k), start.row_of(k), c.0, c.1, c.2);
                }
            }
            assert(canvas@.pixels =~= after.pixels);
        }
        y = y + 1;
    }
    proof {
        let done = stamped(start, c.0, c.1, c.2, color);
        assert forall|k: int| 0 <= k < done.pixels.len() implies canvas@.pixels[k]
            == done.pixels[k] by {
            if in_disk(start.column_of(k), start.row_of(k), c.0, c.1, c.2) {
                lemma_disk_in_square(start.column_of(k), start.row_of(k), c.0, c.1, c.2);
            }
        }
        assert(canvas@.pixels =~= done.pixels);
    }
}

} // verus!
