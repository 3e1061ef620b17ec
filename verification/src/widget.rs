use crate::brush::{brush, brush_color};
use crate::canvas::{Canvas, CanvasView};
use crate::geometry::{pixel_of, to_pixel, Point, Rectangle};
use vstd::prelude::*;

verus! {

/// What the canvas widget remembers between pointer events.
#[derive(Clone, Copy, Debug, PartialEq, Eq, Structural)]
pub struct CanvasState {
    is_painting: bool,
}

/// What the windowing system tells the canvas widget.
#[derive(Clone, Copy, Debug, PartialEq, Eq, Structural)]
pub enum WidgetEvent {
    /// The primary button went down.
    ButtonPressed,
    /// The primary button went up.
    ButtonReleased,
    /// The pointer moved.
    CursorMoved,
    /// The window changed; the widget now lies at `bounds`.
    Window { bounds: Rectangle },
    /// Anything else.
    Other,
}

/// The pixel of the canvas that the canvas-space point falls on, if it falls
/// on one. A point on the left or top edge of the canvas falls on none.
pub open spec fn pixel_under(canvas: CanvasView, point: Point) -> Option<(usize, usize)> {
    if 0 < point.x && 0 < point.y && pixel_of(point.x as int) < canvas.width && pixel_of(
        point.y as int,
    ) < canvas.height {
        Some((pixel_of(point.x as int) as usize, pixel_of(point.y as int) as usize))
    } else {
        None
    }
}

/// Computes [`pixel_under`].
pub fn locate(canvas: &Canvas, point: Point) -> (pixel: Option<(usize, usize)>)
    ensures
        pixel == pixel_under(canvas@, point),
{
    if point.x > 0 && point.y > 0 {
        let x = to_pixel(point.x) as usize;
        let y = to_pixel(point.y) as usize;
        if x < canvas.width() && y < canvas.height() {
            return Some((x, y));
        }
    }
    None
}

/// The canvas after the widget took `event` with the pointer over `pixel`:
/// a press paints the pixel under the pointer, and so does a move while
/// painting; a window event records the new bounds.
pub open spec fn canvas_after_event(
    canvas: CanvasView,
    painting: bool,
    event: WidgetEvent,
    pixel: Option<(usize, usize)>,
) -> CanvasView {
    match event {
        WidgetEvent::ButtonPressed => match pixel {
            Some((x, y)) => canvas.with_pixel(x as int, y as int, brush_color()),
            None => canvas,
        },
        WidgetEvent::CursorMoved => match pixel {
            Some((x, y)) => if painting {
                canvas.with_pixel(x as int, y as int, brush_color())
            } else {
                canvas
            },
            None => canvas,
        },
        WidgetEvent::Window { bounds } => CanvasView { bounds: Some(bounds), ..canvas },
        _ => canvas,
    }
}

/// Whether the widget paints after it took `event` with the pointer over
/// `pixel`: from a press on the canvas until the release.
pub open spec fn painting_after_event(
    painting: bool,
    event: WidgetEvent,
    pixel: Option<(usize, usize)>,
) -> bool {
    match event {
        WidgetEvent::ButtonPressed => painting || pixel.is_some(),
        WidgetEvent::ButtonReleased => false,
        _ => painting,
    }
}

/// Whether the widget asks for a redraw after `event`.
pub open spec fn redraw_after_event(painting: bool, event: WidgetEvent) -> bool {
    match event {
        WidgetEvent::ButtonPressed => true,
        WidgetEvent::ButtonReleased => true,
        WidgetEvent::CursorMoved => painting,
        WidgetEvent::Window { .. } => true,
        WidgetEvent::Other => false,
    }
}

impl CanvasState {
    /// Whether the pointer is down on the canvas.
    pub closed spec fn painting(&self) -> bool {
        self.is_painting
    }

    pub fn set_is_painting(&mut self, is_painting: bool)
        ensures
            final(self).painting() == is_painting,
    {
        self.is_painting = is_painting;
    }

    pub fn is_painting(&self) -> (painting: bool)
        ensures
            painting == self.painting(),
    {
        self.is_painting
    }

    /// Takes one event of the windowing system, with the pixel of the canvas
    /// that the pointer is over, if it is over one. Returns whether the
    /// canvas has to be drawn again.
    pub fn update(
        &mut self,
        canvas: &mut Canvas,
        event: WidgetEvent,
        pixel: Option<(usize, usize)>,
    ) -> (redraw: bool)
        requires
            old(canvas).wf(),
        ensures
            final(canvas).wf(),
            final(canvas)@ == canvas_after_event(old(canvas)@, old(self).painting(), event, pixel),
            final(self).painting() == painting_after_event(old(self).painting(), event, pixel),
            redraw == redraw_after_event(old(self).painting(), event),
    {
        match event {
            WidgetEvent::ButtonPressed => {
                if let Some((x, y)) = pixel {
                    self.set_is_painting(true);
                    canvas.draw_pixel(x, y, brush());
                }
                true
            },
            WidgetEvent::ButtonReleased => {
                self.set_is_painting(false);
                true
            },
            WidgetEvent::CursorMoved => {
                if self.is_painting {
                    if let Some((x, y)) = pixel {
                        canvas.draw_pixel(x, y, brush());
                    }
                    true
                } else {
                    false
                }
            },
            WidgetEvent::Window { bounds } => {
                canvas.set_bounds(bounds.x, bounds.y, bounds.width, bounds.height);
                true
            },
            WidgetEvent::Other => false,
        }
    }
}

impl Default for CanvasState {
    /// The pointer starts out up.
    fn default() -> (state: CanvasState)
        ensures
            !state.painting(),
    {
        CanvasState { is_painting: false }
    }
}

} // verus!
