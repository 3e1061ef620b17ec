use vstd::prelude::*;

verus! {

/// Why an input event did not reach the shell.
#[derive(Clone, Copy, Debug, PartialEq, Eq, Structural)]
pub enum InputSendError {
    /// The sink would not take the event, for instance because its queue
    /// was full. The event is lost; the input source carries on.
    FailedSend,
}

/// A pen event. Positions are in thousandths of a screen pixel, pressure in
/// thousandths of full pressure.
#[derive(Clone, Copy, Debug, PartialEq, Eq, Structural)]
#[non_exhaustive]
pub enum TabletEvent {
    TabletDown { x: i32, y: i32, pressure: i32 },
    TabletMoved { x: i32, y: i32, pressure: i32 },
    TabletReleased,
}

/// A multitouch gesture. Scale is in thousandths, pan in thousandths of a
/// screen pixel, rotation in thousandths of a radian.
#[derive(Clone, Copy, Debug, PartialEq, Eq, Structural)]
pub enum GestureEvent {
    MagnifyGesture { scale: i32 },
    PanGesture { dx: i32, dy: i32 },
    RotationGesture { rotation: i32 },
}

/// Anything that a native input source reports.
#[derive(Clone, Copy, Debug, PartialEq, Eq, Structural)]
pub enum InputEvent {
    Gesture(GestureEvent),
    Tablet(TabletEvent),
}

/// Where a native input source hands its events. Delivery is best effort:
/// a sink may refuse an event, and nothing is promised of one that it took.
pub trait InputEventSink {
    fn try_send(&self, event: InputEvent) -> (sent: Result<(), InputSendError>);
}

} // verus!
