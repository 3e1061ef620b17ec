use crate::brush::{
    brush, brush_color, in_disk, lemma_stamped_pixel, stamp, stamped, BRUSH_RADIUS,
};
use crate::canvas::{Canvas, CanvasView};
use crate::brush::lerp::{lemma_lerp_between, lerp, lerp_coordinate};
use crate::geometry::{pixel_of, spec_distance, to_pixel, Point};
use vstd::prelude::*;

verus! {

/// Distance between two stamps of a stroke unless another is asked for: one
/// canvas pixel.
pub const DEFAULT_SPACING: u32 = 1000;

/// One sample along a stroke, in canvas space.
#[derive(Clone, Copy, Debug, PartialEq, Eq, Structural)]
pub struct StrokePositionalData {
    pub x: i32,
    pub y: i32,
    pub pressure: i32,
}

impl StrokePositionalData {
    /// Where the sample lies.
    pub open spec fn position(self) -> Point {
        Point { x: self.x, y: self.y }
    }
}

/// The sample a fraction `i / n` of the way from `from` to `to`. It carries
/// the pressure of `to`.
pub open spec fn interpolate(
    from: StrokePositionalData,
    to: StrokePositionalData,
    i: int,
    n: int,
) -> StrokePositionalData {
    StrokePositionalData {
        x: lerp(from.x as int, to.x as int, i, n) as i32,
        y: lerp(from.y as int, to.y as int, i, n) as i32,
        pressure: to.pressure,
    }
}

/// The stamps that a move from `from` to `to` emits when it is worth `steps`
/// of them: the samples at the fractions `0 / steps`, `1 / steps`, and so on
/// up to `(steps - 1) / steps`.
pub open spec fn resampled(
    from: StrokePositionalData,
    to: StrokePositionalData,
    steps: nat,
) -> Seq<StrokePositionalData> {
    Seq::new(steps, |i: int| interpolate(from, to, i, steps as int))
}

/// The canvas after the brush was stamped at `p`.
pub open spec fn stamped_at(v: CanvasView, p: StrokePositionalData) -> CanvasView {
    stamped(v, pixel_of(p.x as int), pixel_of(p.y as int), BRUSH_RADIUS as int, brush_color())
}

/// The canvas after the brush was stamped at each of `points` in turn.
pub open spec fn stamped_along(v: CanvasView, points: Seq<StrokePositionalData>) -> CanvasView
    decreases points.len(),
{
    if points.len() == 0 {
        v
    } else {
        stamped_at(stamped_along(v, points.drop_last()), points.last())
    }
}

/// Computes [`interpolate`].
pub fn interpolate_sample(
    from: StrokePositionalData,
    to: StrokePositionalData,
    i: u64,
    n: u64,
) -> (p: StrokePositionalData)
    requires
        i <= n,
        0 < n,
    ensures
        p == interpolate(from, to, i as int, n as int),
{
    proof {
        lemma_lerp_between(from.x as int, to.x as int, i as int, n as int);
        lemma_lerp_between(from.y as int, to.y as int, i as int, n as int);
    }
    StrokePositionalData {
        x: lerp_coordinate(from.x, to.x, i, n),
        y: lerp_coordinate(from.y, to.y, i, n),
        pressure: to.pressure,
    }
}

/// Stamps the brush once, at the pixel that `p` falls on.
pub fn stamp_at(canvas: &mut Canvas, p: StrokePositionalData)
    requires
        old(canvas).wf(),
    ensures
        final(canvas).wf(),
        final(canvas)@ == stamped_at(old(canvas)@, p),
{
    stamp(canvas, to_pixel(p.x), to_pixel(p.y), BRUSH_RADIUS, brush());
}

/// The disk of the `i`-th of `points` holds pixel `(x, y)`.
pub open spec fn stamp_hits(points: Seq<StrokePositionalData>, i: int, x: int, y: int) -> bool {
    in_disk(x, y, pixel_of(points[i].x as int), pixel_of(points[i].y as int), BRUSH_RADIUS as int)
}

/// The disk of one of `points` holds pixel `(x, y)`.
pub open spec fn covered(points: Seq<StrokePositionalData>, x: int, y: int) -> bool {
    exists|i: int| 0 <= i < points.len() && stamp_hits(points, i, x, y)
}

/// What a run of stamps does to each pixel of the canvas: a pixel that the
/// disk of any stamp holds carries the brush color, every other pixel is as
/// before. The size of the canvas and its view parameters stay.
pub proof fn lemma_stamped_along_pixel(
    v: CanvasView,
    points: Seq<StrokePositionalData>,
    x: int,
    y: int,
)
    requires
        v.pixels.len() == v.width * v.height * 4,
        0 <= x < v.width,
        0 <= y < v.height,
    ensures
        stamped_along(v, points) == (CanvasView {
            pixels: stamped_along(v, points).pixels,
            ..v
        }),
        stamped_along(v, points).pixels.len() == v.pixels.len(),
        stamped_along(v, points).pixel(x, y) == (if covered(points, x, y) {
            brush_color()
        } else {
            v.pixel(x, y)
        }),
    decreases points.len(),
{
    if points.len() > 0 {
        let earlier = points.drop_last();
        let newest = points.last();
        let before = stamped_along(v, earlier);
        lemma_stamped_along_pixel(v, earlier, x, y);
        lemma_stamped_pixel(
            before,
            pixel_of(newest.x as int),
            pixel_of(newest.y as int),
            BRUSH_RADIUS as int,
            brush_color(),
            x,
            y,
        );
        let last = points.len() - 1;
        if covered(earlier, x, y) {
            let i = choose|i: int| 0 <= i < earlier.len() && stamp_hits(earlier, i, x, y);
            assert(stamp_hits(points, i, x, y));
        }
        if stamp_hits(points, last, x, y) {
            assert(covered(points, x, y));
        }
        if covered(points, x, y) {
            let i = choose|i: int| 0 <= i < points.len() && stamp_hits(points, i, x, y);
            if i < last {
                assert(stamp_hits(earlier, i, x, y));
            }
        }
    }
}

/// What a stroke in progress is, mathematically.
pub struct StrokeView {
    /// The stamps emitted so far, oldest first.
    pub points: Seq<StrokePositionalData>,
    /// The newest raw sample: where the pointer was when the stroke last
    /// heard of it, whether or not a stamp came of that.
    pub last_sample: StrokePositionalData,
    /// Path length travelled since the last stamp and not yet spent on one.
    pub accumulated_distance: nat,
    /// Path length that one stamp costs.
    pub spacing: nat,
}

impl StrokeView {
    /// A stroke holds at least its first stamp, and never keeps a whole
    /// `spacing` of unspent path.
    pub open spec fn wf(self) -> bool {
        &&& self.points.len() > 0
        &&& self.spacing > 0
        &&& self.accumulated_distance < self.spacing
    }

    /// Unspent path length once the pointer has moved on to `point`: what
    /// was unspent before, and the way from the newest raw sample.
    pub open spec fn pending(self, point: StrokePositionalData) -> nat {
        self.accumulated_distance + spec_distance(self.last_sample.position(), point.position())
    }

    /// How many stamps the move to `point` is worth.
    pub open spec fn steps(self, point: StrokePositionalData) -> nat {
        self.pending(point) / self.spacing
    }

    /// The stamps that the move to `point` emits: interpolated between the
    /// newest raw sample and `point`.
    pub open spec fn emitted(self, point: StrokePositionalData) -> Seq<StrokePositionalData> {
        resampled(self.last_sample, point, self.steps(point))
    }

    /// The stroke after the move to `point`: the new stamps are recorded,
    /// `point` is the newest raw sample, and the remainder of the path
    /// length is carried forward.
    pub open spec fn advanced(self, point: StrokePositionalData) -> StrokeView {
        StrokeView {
            points: self.points + self.emitted(point),
            last_sample: point,
            accumulated_distance: self.pending(point) % self.spacing,
            spacing: self.spacing,
        }
    }
}

/// One continuous painting gesture, from pointer down to pointer up.
#[derive(Debug)]
pub struct Stroke {
    position_data: Vec<StrokePositionalData>,
    last_sample: StrokePositionalData,
    accumulated_distance: u64,
    spacing: u32,
}

impl View for Stroke {
    type V = StrokeView;

    closed spec fn view(&self) -> StrokeView {
        StrokeView {
            points: self.position_data@,
            last_sample: self.last_sample,
            accumulated_distance: self.accumulated_distance as nat,
            spacing: self.spacing as nat,
        }
    }
}

impl Stroke {
    /// The invariant of every stroke that this module hands out.
    pub open spec fn wf(&self) -> bool {
        self@.wf()
    }

    /// A stroke that has emitted its first stamp, at `first`, and nothing
    /// else. `first` is also its newest raw sample.
    pub fn new(first: StrokePositionalData, spacing: u32) -> (stroke: Stroke)
        requires
            spacing > 0,
        ensures
            stroke.wf(),
            stroke@ == (StrokeView {
                points: seq![first],
                last_sample: first,
                accumulated_distance: 0,
                spacing: spacing as nat,
            }),
    {
        let mut position_data: Vec<StrokePositionalData> = Vec::new();
        position_data.push(first);
        assert(position_data@ =~= seq![first]);
        Stroke { position_data, last_sample: first, accumulated_distance: 0, spacing }
    }

    /// Records `point` as the newest stamp of the stroke. The newest raw
    /// sample and the unspent path length stay as they are.
    pub fn add_point(&mut self, point: StrokePositionalData)
        ensures
            final(self)@ == (StrokeView { points: old(self)@.points.push(point), ..old(self)@ }),
            old(self).wf() ==> final(self).wf(),
    {
        self.position_data.push(point);
    }

    /// The stamps emitted so far, oldest first.
    pub fn points(&self) -> (points: &Vec<StrokePositionalData>)
        ensures
            points@ == self@.points,
    {
        &self.position_data
    }

    /// The newest raw sample.
    pub fn last_sample(&self) -> (sample: StrokePositionalData)
        ensures
            sample == self@.last_sample,
    {
        self.last_sample
    }

    pub fn accumulated_distance(&self) -> (d: u64)
        ensures
            d == self@.accumulated_distance,
    {
        self.accumulated_distance
    }

    pub fn spacing(&self) -> (s: u32)
        ensures
            s == self@.spacing,
    {
        self.spacing
    }

    /// Takes in the next raw sample. The distance from the raw sample
    /// before it is added to the unspent path length; for each whole
    /// `spacing` in it one stamp is emitted, interpolated between the two raw
    /// samples; what is left is carried forward, and `point` becomes the
    /// newest raw sample also where no stamp came of it. Returns the stamps
    /// emitted, which may be none.
    pub fn resample(&mut self, point: StrokePositionalData) -> (emitted: Vec<StrokePositionalData>)
        requires
            old(self).wf(),
        ensures
            final(self).wf(),
            emitted@ == old(self)@.emitted(point),
            emitted@.len() == old(self)@.pending(point) / old(self)@.spacing,
            final(self)@ == old(self)@.advanced(point),
    {
        let last = self.last_sample;
        let travelled: u64 = Point { x: last.x, y: last.y }.distance(
            Point { x: point.x, y: point.y },
        );
        let total: u64 = self.accumulated_distance + travelled;
        let spacing: u64 = self.spacing as u64;
        let steps: u64 = total / spacing;
        proof {
            vstd::arithmetic::div_mod::lemma_fundamental_div_mod(total as int, spacing as int);
            vstd::arithmetic::div_mod::lemma_mod_bound(total as int, spacing as int);
            assert(steps * spacing == spacing * steps) by (nonlinear_arith);
            assert(total == old(self)@.pending(point));
        }
        let mut emitted: Vec<StrokePositionalData> = Vec::new();
        let mut i: u64 = 0;
        while i < steps
            invariant
                i <= steps,
                emitted@.len() == i,
                forall|j: int|
                    0 <= j < i ==> emitted@[j] == interpolate(last, point, j, steps as int),
                self.position_data@ == old(self).position_data@ + emitted@,
                self.accumulated_distance == old(self).accumulated_distance,
                self.spacing == old(self).spacing,
                self.last_sample == old(self).last_sample,
            decreases steps - i,
        {
            let p = interpolate_sample(last, point, i, steps);
            emitted.push(p);
            self.position_data.push(p);
            assert(self.position_data@ =~= old(self).position_data@ + emitted@);
            i = i + 1;
        }
        self.accumulated_distance = total - steps * spacing;
        self.last_sample = point;
        assert(emitted@ =~= resampled(last, point, steps as nat));
        emitted
    }
}

/// What a stroke manager is, mathematically.
pub struct StrokeManagerView {
    /// Path length that one stamp costs, for every stroke it begins.
    pub spacing: nat,
    /// The stroke in progress; `None` while idle.
    pub active: Option<StrokeView>,
}

impl StrokeManagerView {
    pub open spec fn wf(self) -> bool {
        &&& self.spacing > 0
        &&& self.active.is_some() ==> self.active.unwrap().wf() && self.active.unwrap().spacing
            == self.spacing
    }

    /// The manager after pointer down at `point`: a fresh stroke that holds
    /// `point` alone, as its first stamp and as its newest raw sample,
    /// whatever was in progress before.
    pub open spec fn begun(self, point: StrokePositionalData) -> StrokeManagerView {
        StrokeManagerView {
            active: Some(
                StrokeView {
                    points: seq![point],
                    last_sample: point,
                    accumulated_distance: 0,
                    spacing: self.spacing,
                },
            ),
            ..self
        }
    }

    /// The manager after a pointer move to `point`.
    pub open spec fn continued(self, point: StrokePositionalData) -> StrokeManagerView {
        match self.active {
            Some(stroke) => StrokeManagerView { active: Some(stroke.advanced(point)), ..self },
            None => self,
        }
    }

    /// The manager after pointer up: idle.
    pub open spec fn ended(self) -> StrokeManagerView {
        StrokeManagerView { active: None, ..self }
    }

    /// The stamps that a pointer move to `point` paints, in order.
    pub open spec fn stamps_on_continue(self, point: StrokePositionalData) -> Seq<
        StrokePositionalData,
    > {
        match self.active {
            Some(stroke) => stroke.emitted(point),
            None => Seq::empty(),
        }
    }

    /// The stamps that pointer up at `point` paints: `point` itself while a
    /// stroke is in progress, none while idle.
    pub open spec fn stamps_on_end(self, point: StrokePositionalData) -> Seq<
        StrokePositionalData,
    > {
        if self.active.is_some() {
            seq![point]
        } else {
            Seq::empty()
        }
    }

    /// What a call reports that painted `stamps` from this state.
    pub open spec fn outcome(self, stamps: Seq<StrokePositionalData>) -> StrokeOutcome {
        if self.active.is_some() {
            StrokeOutcome::Stamped(stamps.len() as usize)
        } else {
            StrokeOutcome::NoActiveStroke
        }
    }
}

/// Stamping at no point changes nothing, and stamping at one point is one
/// stamp.
pub proof fn lemma_stamped_along_short(v: CanvasView, point: StrokePositionalData)
    ensures
        stamped_along(v, Seq::empty()) == v,
        stamped_along(v, seq![point]) == stamped_at(v, point),
{
    let one = seq![point];
    assert(one.drop_last() =~= Seq::<StrokePositionalData>::empty());
    assert(one.last() == point);
    reveal_with_fuel(stamped_along, 2);
}

/// What a call on the stroke manager did.
#[derive(Clone, Copy, Debug, PartialEq, Eq, Structural)]
pub enum StrokeOutcome {
    /// No stroke was in progress: nothing was painted and nothing changed.
    NoActiveStroke,
    /// The brush was stamped this many times.
    Stamped(usize),
}

/// Turns pointer samples into evenly spaced stamps and paints them. It is
/// idle, or it holds the one stroke in progress.
#[derive(Debug)]
pub struct StrokeManager {
    current_stroke: Option<Stroke>,
    spacing: u32,
}

impl View for StrokeManager {
    type V = StrokeManagerView;

    closed spec fn view(&self) -> StrokeManagerView {
        StrokeManagerView {
            spacing: self.spacing as nat,
            active: match self.current_stroke {
                Some(stroke) => Some(stroke@),
                None => None,
            },
        }
    }
}

impl StrokeManager {
    /// The invariant of every stroke manager that this module hands out.
    pub open spec fn wf(&self) -> bool {
        self@.wf()
    }

    /// An idle manager whose strokes stamp once per `DEFAULT_SPACING`.
    pub fn new() -> (manager: StrokeManager)
        ensures
            manager.wf(),
            manager@ == (StrokeManagerView { spacing: DEFAULT_SPACING as nat, active: None }),
    {
        StrokeManager { current_stroke: None, spacing: DEFAULT_SPACING }
    }

    /// An idle manager whose strokes stamp once per `spacing`.
    pub fn with_spacing(spacing: u32) -> (manager: StrokeManager)
        requires
            spacing > 0,
        ensures
            manager.wf(),
            manager@ == (StrokeManagerView { spacing: spacing as nat, active: None }),
    {
        StrokeManager { current_stroke: None, spacing }
    }

    /// Whether a stroke is in progress.
    pub fn is_stroking(&self) -> (stroking: bool)
        ensures
            stroking == self@.active.is_some(),
    {
        self.current_stroke.is_some()
    }

    /// The stroke in progress, if there is one.
    pub fn current_stroke(&self) -> (stroke: Option<&Stroke>)
        ensures
            stroke.is_some() == self@.active.is_some(),
            stroke.is_some() ==> stroke.unwrap()@ == self@.active.unwrap(),
    {
        self.current_stroke.as_ref()
    }

    /// Pointer down at the canvas-space sample `point`. The brush is stamped
    /// there exactly once, and a new stroke begins with that stamp as its
    /// only entry. A stroke that was still in progress is dropped.
    pub fn begin_stroke(&mut self, point: StrokePositionalData, canvas: &mut Canvas)
        requires
            old(self).wf(),
            old(canvas).wf(),
        ensures
            final(self).wf(),
            final(canvas).wf(),
            final(self)@ == old(self)@.begun(point),
            final(canvas)@ == stamped_at(old(canvas)@, point),
    {
        stamp_at(canvas, point);
        self.current_stroke = Some(Stroke::new(point, self.spacing));
    }

    /// Pointer moved to the canvas-space sample `point`. While idle this does
    /// nothing. Otherwise the stroke takes the sample in (see
    /// `Stroke::resample`) and the brush is stamped at each stamp that it
    /// emits, in order.
    pub fn continue_stroke(&mut self, point: StrokePositionalData, canvas: &mut Canvas) -> (outcome:
        StrokeOutcome)
        requires
            old(self).wf(),
            old(canvas).wf(),
        ensures
            final(self).wf(),
            final(canvas).wf(),
            final(self)@ == old(self)@.continued(point),
            final(canvas)@ == stamped_along(
                old(canvas)@,
                old(self)@.stamps_on_continue(point),
            ),
            old(self)@.stamps_on_continue(point).len() <= usize::MAX,
            outcome == old(self)@.outcome(old(self)@.stamps_on_continue(point)),
    {
        match self.current_stroke.take() {
            None => StrokeOutcome::NoActiveStroke,
            Some(mut stroke) => {
                let emitted = stroke.resample(point);
                self.current_stroke = Some(stroke);
                let count: usize = emitted.len();
                let ghost start = canvas@;
                let mut i: usize = 0;
                while i < count
                    invariant
                        i <= count,
                        count == emitted@.len(),
                        canvas.wf(),
                        canvas@ == stamped_along(start, emitted@.take(i as int)),
                    decreases count - i,
                {
                    stamp_at(canvas, emitted[i]);
                    proof {
                        let next = emitted@.take(i + 1);
                        assert(next.drop_last() =~= emitted@.take(i as int));
                        assert(next.last() == emitted@[i as int]);
                    }
                    i = i + 1;
                }
                assert(emitted@.take(count as int) =~= emitted@);
                StrokeOutcome::Stamped(count)
            },
        }
    }

    /// Pointer up at the canvas-space sample `point`. While idle this does
    /// nothing. Otherwise the brush is stamped at `point` exactly once,
    /// whatever path length is unspent, and the manager goes idle.
    pub fn end_stroke(&mut self, point: StrokePositionalData, canvas: &mut Canvas) -> (outcome:
        StrokeOutcome)
        requires
            old(self).wf(),
            old(canvas).wf(),
        ensures
            final(self).wf(),
            final(canvas).wf(),
            final(self)@ == old(self)@.ended(),
            final(canvas)@ == stamped_along(old(canvas)@, old(self)@.stamps_on_end(point)),
            outcome == old(self)@.outcome(old(self)@.stamps_on_end(point)),
    {
        proof {
            lemma_stamped_along_short(canvas@, point);
        }
        match self.current_stroke.take() {
            None => StrokeOutcome::NoActiveStroke,
            Some(_) => {
                stamp_at(canvas, point);
                StrokeOutcome::Stamped(1)
            },
        }
    }
}

impl Default for StrokeManager {
    fn default() -> (manager: StrokeManager)
        ensures
            manager.wf(),
            manager@ == (StrokeManagerView { spacing: DEFAULT_SPACING as nat, active: None }),
    {
        StrokeManager::new()
    }
}

} // verus!
