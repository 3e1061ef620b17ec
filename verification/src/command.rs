use crate::brush::stroke::{
    stamped_along, stamped_at, StrokeManager, StrokeManagerView,
    StrokeOutcome, StrokePositionalData,
};
use crate::canvas::{clamp_zoom, Canvas, CanvasView};
use crate::geometry::Point;
use vstd::prelude::*;

verus! {

/// One pointer sample as the shell hands it over: a position in canvas
/// space and a pressure, all in thousandths.
#[derive(Clone, Copy, Debug, PartialEq, Eq, Structural)]
pub struct PointerEvent {
    pub pos_x: i32,
    pub pos_y: i32,
    pub pressure: i32,
}

impl PointerEvent {
    /// The stroke sample that the event stands for.
    pub open spec fn sample(self) -> StrokePositionalData {
        StrokePositionalData { x: self.pos_x, y: self.pos_y, pressure: self.pressure }
    }
}

impl From<PointerEvent> for StrokePositionalData {
    fn from(value: PointerEvent) -> (sample: StrokePositionalData) {
        StrokePositionalData { x: value.pos_x, y: value.pos_y, pressure: value.pressure }
    }
}

impl vstd::std_specs::convert::FromSpecImpl<PointerEvent> for StrokePositionalData {
    open spec fn obeys_from_spec() -> bool {
        true
    }

    open spec fn from_spec(value: PointerEvent) -> StrokePositionalData {
        value.sample()
    }
}

/// Everything the user can do to the canvas.
#[derive(Clone, Copy, Debug, PartialEq, Eq, Structural)]
pub enum CanvasInput {
    /// Sets the absolute zoom factor.
    ZoomCanvas { zoom: i32 },
    /// Sets the absolute pan offset.
    PanCanvas { offset_x: i32, offset_y: i32 },
    /// Pointer down.
    BeginStroke(PointerEvent),
    /// Pointer moved while down.
    ContinueStroke(PointerEvent),
    /// Pointer up.
    EndStroke(PointerEvent),
}

/// Which part of the canvas a command touched, and so which part of its GPU
/// mirror is out of date.
#[derive(Clone, Copy, Debug, PartialEq, Eq, Structural)]
pub enum CanvasChange {
    /// Neither pixels nor view parameters were written.
    Nothing,
    /// A view parameter was written.
    View,
    /// The brush was stamped at least once.
    Pixels,
}

/// The canvas after `input`, given the stroke manager before it.
pub open spec fn canvas_after(
    canvas: CanvasView,
    manager: StrokeManagerView,
    input: CanvasInput,
) -> CanvasView {
    match input {
        CanvasInput::ZoomCanvas { zoom } => CanvasView { zoom: clamp_zoom(zoom as int), ..canvas },
        CanvasInput::PanCanvas { offset_x, offset_y } => CanvasView {
            offset: Point { x: offset_x, y: offset_y },
            ..canvas
        },
        CanvasInput::BeginStroke(event) => stamped_at(canvas, event.sample()),
        CanvasInput::ContinueStroke(event) => stamped_along(
            canvas,
            manager.stamps_on_continue(event.sample()),
        ),
        CanvasInput::EndStroke(event) => stamped_along(
            canvas,
            manager.stamps_on_end(event.sample()),
        ),
    }
}

/// The stroke manager after `input`.
pub open spec fn manager_after(manager: StrokeManagerView, input: CanvasInput) -> StrokeManagerView {
    match input {
        CanvasInput::ZoomCanvas { .. } => manager,
        CanvasInput::PanCanvas { .. } => manager,
        CanvasInput::BeginStroke(event) => manager.begun(event.sample()),
        CanvasInput::ContinueStroke(event) => manager.continued(event.sample()),
        CanvasInput::EndStroke(event) => manager.ended(),
    }
}

/// What `input` touches, given the stroke manager before it.
pub open spec fn change_of(manager: StrokeManagerView, input: CanvasInput) -> CanvasChange {
    match input {
        CanvasInput::ZoomCanvas { .. } => CanvasChange::View,
        CanvasInput::PanCanvas { .. } => CanvasChange::View,
        CanvasInput::BeginStroke(_) => CanvasChange::Pixels,
        CanvasInput::ContinueStroke(event) => if manager.stamps_on_continue(event.sample()).len()
            > 0 {
            CanvasChange::Pixels
        } else {
            CanvasChange::Nothing
        },
        CanvasInput::EndStroke(_) => if manager.active.is_some() {
            CanvasChange::Pixels
        } else {
            CanvasChange::Nothing
        },
    }
}

/// What a stroke call touched, by what it reports.
fn change_from(outcome: StrokeOutcome) -> (change: CanvasChange)
    ensures
        change == (match outcome {
            StrokeOutcome::NoActiveStroke => CanvasChange::Nothing,
            StrokeOutcome::Stamped(count) => if count > 0 {
                CanvasChange::Pixels
            } else {
                CanvasChange::Nothing
            },
        }),
{
    match outcome {
        StrokeOutcome::NoActiveStroke => CanvasChange::Nothing,
        StrokeOutcome::Stamped(count) => if count > 0 {
            CanvasChange::Pixels
        } else {
            CanvasChange::Nothing
        },
    }
}

/// Carries out one command against the canvas and the stroke manager, and
/// says what it touched.
pub fn process_canvas_input(
    input: CanvasInput,
    canvas: &mut Canvas,
    stroke_manager: &mut StrokeManager,
) -> (change: CanvasChange)
    requires
        old(canvas).wf(),
        old(stroke_manager).wf(),
    ensures
        final(canvas).wf(),
        final(stroke_manager).wf(),
        final(canvas)@ == canvas_after(old(canvas)@, old(stroke_manager)@, input),
        final(stroke_manager)@ == manager_after(old(stroke_manager)@, input),
        change == change_of(old(stroke_manager)@, input),
{
    match input {
        CanvasInput::ZoomCanvas { zoom } => {
            handle_zoom(zoom, canvas);
            CanvasChange::View
        },
        CanvasInput::PanCanvas { offset_x, offset_y } => {
            handle_pan(offset_x, offset_y, canvas);
            CanvasChange::View
        },
        CanvasInput::BeginStroke(event) => {
            stroke_manager.begin_stroke(StrokePositionalData::from(event), canvas);
            CanvasChange::Pixels
        },
        CanvasInput::ContinueStroke(event) => {
            let outcome = stroke_manager.continue_stroke(StrokePositionalData::from(event), canvas);
            change_from(outcome)
        },
        CanvasInput::EndStroke(event) => {
            let outcome = stroke_manager.end_stroke(StrokePositionalData::from(event), canvas);
            change_from(outcome)
        },
    }
}

/// Sets the zoom factor of `canvas`, held to the range it accepts.
pub fn handle_zoom(zoom: i32, canvas: &mut Canvas)
    requires
        old(canvas).wf(),
    ensures
        final(canvas).wf(),
        final(canvas)@ == (CanvasView { zoom: clamp_zoom(zoom as int), ..old(canvas)@ }),
{
    canvas.set_zoom(zoom);
}

/// Sets the pan offset of `canvas`.
pub fn handle_pan(offset_x: i32, offset_y: i32, canvas: &mut Canvas)
    requires
        old(canvas).wf(),
    ensures
        final(canvas).wf(),
        final(canvas)@ == (CanvasView {
            offset: Point { x: offset_x, y: offset_y },
            ..old(canvas)@
        }),
{
    canvas.set_offset(offset_x, offset_y);
}

} // verus!
