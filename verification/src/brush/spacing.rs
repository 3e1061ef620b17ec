use crate::brush::lerp::{
    lemma_lerp_between, lemma_lerp_exact, lemma_lerp_gap, lemma_lerp_on_line, lemma_lerp_step, lerp,
};
use crate::brush::stroke::{
    resampled, stamped_along, StrokeManagerView, StrokeOutcome, StrokePositionalData, StrokeView,
};
use crate::canvas::CanvasView;
use crate::geometry::{
    abs, floor_sqrt, lemma_distance_bounds_axes, lemma_floor_sqrt_bounds, lemma_square_monotone,
    spec_distance,
};
use vstd::arithmetic::div_mod::{
    lemma_basic_div, lemma_fundamental_div_mod, lemma_mod_bound, lemma_small_mod,
};
use vstd::prelude::*;

verus! {

/// Every stamp that a move emits lies on the segment from the raw sample
/// before it to the raw sample: inside the box that the two span, and off the exact
/// point at its fraction of the segment by less than one step along each
/// axis. It carries the pressure of the raw sample.
pub proof fn lemma_resampled_on_segment(
    from: StrokePositionalData,
    to: StrokePositionalData,
    steps: nat,
    i: int,
)
    requires
        0 <= i < steps,
    ensures
        ({
            let p = resampled(from, to, steps)[i];
            &&& p.pressure == to.pressure
            &&& from.x <= to.x ==> from.x <= p.x <= to.x
            &&& to.x <= from.x ==> to.x <= p.x <= from.x
            &&& from.y <= to.y ==> from.y <= p.y <= to.y
            &&& to.y <= from.y ==> to.y <= p.y <= from.y
            &&& abs(steps * (p.x - from.x) - i * (to.x - from.x)) < steps
            &&& abs(steps * (p.y - from.y) - i * (to.y - from.y)) < steps
        }),
        resampled(from, to, steps)[0] == (StrokePositionalData { pressure: to.pressure, ..from }),
{
    let n = steps as int;
    lemma_lerp_between(from.x as int, to.x as int, i, n);
    lemma_lerp_between(from.y as int, to.y as int, i, n);
    lemma_lerp_on_line(from.x as int, to.x as int, i, n);
    lemma_lerp_on_line(from.y as int, to.y as int, i, n);
}

/// The stamps that one move emits are evenly spaced: from each to the next
/// the advance along an axis is the whole advance along that axis divided by
/// the number of stamps, rounded down or up.
pub proof fn lemma_resampled_evenly_spaced(
    from: StrokePositionalData,
    to: StrokePositionalData,
    steps: nat,
    i: int,
)
    requires
        0 <= i,
        i + 1 < steps,
    ensures
        ({
            let p = resampled(from, to, steps)[i];
            let q = resampled(from, to, steps)[i + 1];
            &&& abs(steps * (q.x - p.x) - (to.x - from.x)) < steps
            &&& abs(steps * (q.y - p.y) - (to.y - from.y)) < steps
        }),
{
    let n = steps as int;
    lemma_lerp_between(from.x as int, to.x as int, i, n);
    lemma_lerp_between(from.y as int, to.y as int, i, n);
    lemma_lerp_between(from.x as int, to.x as int, i + 1, n);
    lemma_lerp_between(from.y as int, to.y as int, i + 1, n);
    lemma_lerp_step(from.x as int, to.x as int, i, n);
    lemma_lerp_step(from.y as int, to.y as int, i, n);
}

/// Where the raw sample is no further from the raw sample before it than
/// the stamps emitted can cover (`steps * spacing`), no two neighbouring stamps of the
/// move are more than `spacing` apart along either axis, and neither is the
/// last of them from the raw sample.
pub proof fn lemma_resampled_gap(
    from: StrokePositionalData,
    to: StrokePositionalData,
    steps: nat,
    spacing: nat,
    i: int,
)
    requires
        0 <= i < steps,
        spec_distance(from.position(), to.position()) <= steps * spacing,
    ensures
        ({
            let p = resampled(from, to, steps)[i];
            let q = successor(from, to, steps, i);
            &&& abs(q.x - p.x) <= spacing
            &&& abs(q.y - p.y) <= spacing
        }),
{
    let n = steps as int;
    lemma_distance_bounds_axes(from.position(), to.position());
    lemma_lerp_between(from.x as int, to.x as int, i, n);
    lemma_lerp_between(from.y as int, to.y as int, i, n);
    lemma_lerp_between(from.x as int, to.x as int, i + 1, n);
    lemma_lerp_between(from.y as int, to.y as int, i + 1, n);
    lemma_lerp_gap(from.x as int, to.x as int, i, n, spacing as int);
    lemma_lerp_gap(from.y as int, to.y as int, i, n, spacing as int);
}

/// A move never leaves a whole `spacing` of path length unspent, and spends
/// exactly `spacing` on each stamp that it emits. Its raw sample is the
/// newest afterwards; a move that is worth no stamp changes nothing else but
/// the unspent path length, which grows by the way travelled.
pub proof fn lemma_advanced_accounts_for_path(stroke: StrokeView, point: StrokePositionalData)
    requires
        stroke.wf(),
    ensures
        stroke.advanced(point).wf(),
        stroke.emitted(point).len() == stroke.pending(point) / stroke.spacing,
        stroke.emitted(point).len() * stroke.spacing + stroke.advanced(point).accumulated_distance
            == stroke.pending(point),
        stroke.advanced(point).last_sample == point,
        stroke.pending(point) < stroke.spacing ==> stroke.advanced(point) == (StrokeView {
            last_sample: point,
            accumulated_distance: stroke.accumulated_distance + spec_distance(
                stroke.last_sample.position(),
                point.position(),
            ),
            ..stroke
        }),
{
    let total = stroke.pending(point) as int;
    let spacing = stroke.spacing as int;
    lemma_fundamental_div_mod(total, spacing);
    lemma_mod_bound(total, spacing);
    assert((total / spacing) * spacing == spacing * (total / spacing)) by (nonlinear_arith);
    if total < spacing {
        lemma_basic_div(total, spacing);
        lemma_small_mod(total as nat, spacing as nat);
        assert(stroke.emitted(point) =~= Seq::<StrokePositionalData>::empty());
        assert(stroke.points + stroke.emitted(point) =~= stroke.points);
    }
}

/// A move too short to be worth a stamp is absorbed: while the unspent path
/// length with the way travelled stays below `spacing`, the manager paints
/// nothing, the canvas is as before, the stamps recorded are as before, the
/// unspent path length has grown by the way travelled, and the raw sample is
/// the newest of the stroke.
pub proof fn lemma_short_move_is_absorbed(
    manager: StrokeManagerView,
    canvas: CanvasView,
    point: StrokePositionalData,
)
    requires
        manager.wf(),
        manager.active.is_some(),
        manager.active.unwrap().pending(point) < manager.spacing,
    ensures
        manager.stamps_on_continue(point) == Seq::<StrokePositionalData>::empty(),
        stamped_along(canvas, manager.stamps_on_continue(point)) == canvas,
        manager.outcome(manager.stamps_on_continue(point)) == StrokeOutcome::Stamped(0),
        manager.continued(point) == (StrokeManagerView {
            active: Some(
                StrokeView {
                    last_sample: point,
                    accumulated_distance: manager.active.unwrap().accumulated_distance
                        + spec_distance(
                        manager.active.unwrap().last_sample.position(),
                        point.position(),
                    ),
                    ..manager.active.unwrap()
                },
            ),
            ..manager
        }),
{
    let stroke = manager.active.unwrap();
    lemma_advanced_accounts_for_path(stroke, point);
    assert(stroke.emitted(point) =~= Seq::<StrokePositionalData>::empty());
}

/// Where the advance along each axis is a whole multiple of the number of
/// stamps, the stamps of a move are spaced exactly: each lies one such part
/// of the advance beyond the one before it.
pub proof fn lemma_resampled_exact_spacing(
    from: StrokePositionalData,
    to: StrokePositionalData,
    steps: nat,
    step_x: int,
    step_y: int,
    i: int,
)
    requires
        0 <= i < steps,
        to.x - from.x == steps * step_x,
        to.y - from.y == steps * step_y,
    ensures
        resampled(from, to, steps)[i].x == from.x + i * step_x,
        resampled(from, to, steps)[i].y == from.y + i * step_y,
{
    let n = steps as int;
    lemma_lerp_between(from.x as int, to.x as int, i, n);
    lemma_lerp_between(from.y as int, to.y as int, i, n);
    lemma_exact_axis(from.x as int, to.x as int, i, n, step_x);
    lemma_exact_axis(from.y as int, to.y as int, i, n, step_y);
}

/// `lemma_lerp_exact` for a signed step.
proof fn lemma_exact_axis(a: int, b: int, i: int, n: int, step: int)
    requires
        0 <= i < n,
        b - a == n * step,
    ensures
        lerp(a, b, i, n) == a + i * step,
{
    assert(abs(b - a) == n * abs(step) && (b >= a ==> step >= 0) && (b < a ==> step < 0))
        by (nonlinear_arith)
        requires
            b - a == n * step,
            0 < n,
    ;
    lemma_lerp_exact(a, b, i, n, abs(step));
    assert(i * abs(step) == abs(i * step) && (step >= 0 ==> i * step >= 0) && (step < 0 ==> i
        * step <= 0)) by (nonlinear_arith)
        requires
            0 <= i,
    ;
}

/// The square of a sum of products is at most the product of the sums of
/// squares.
proof fn lemma_cauchy_schwarz(a: int, b: int, u: int, v: int)
    ensures
        (a * u + b * v) * (a * u + b * v) <= (a * a + b * b) * (u * u + v * v),
{
    let p = a * u;
    let q = b * v;
    let r = a * v;
    let t = b * u;
    assert((a * a) * (u * u) == p * p) by (nonlinear_arith)
        requires
            p == a * u,
    ;
    assert((b * b) * (v * v) == q * q) by (nonlinear_arith)
        requires
            q == b * v,
    ;
    assert((a * a) * (v * v) == r * r) by (nonlinear_arith)
        requires
            r == a * v,
    ;
    assert((b * b) * (u * u) == t * t) by (nonlinear_arith)
        requires
            t == b * u,
    ;
    assert(p * q == r * t) by (nonlinear_arith)
        requires
            p == a * u,
            q == b * v,
            r == a * v,
            t == b * u,
    ;
    let aa = a * a;
    let bb = b * b;
    let uu = u * u;
    let vv = v * v;
    assert((aa + bb) * (uu + vv) == aa * uu + aa * vv + bb * uu + bb * vv) by (nonlinear_arith);
    assert((p + q) * (p + q) == p * p + 2 * (p * q) + q * q) by (nonlinear_arith);
    assert((r - t) * (r - t) == r * r - 2 * (r * t) + t * t) by (nonlinear_arith);
    assert((r - t) * (r - t) >= 0) by (nonlinear_arith);
}

/// Two lattice points that advance by the `n`-th part of `(dx, dy)`, each
/// coordinate rounded by less than one, are less than `s + 3` apart where
/// `(dx, dy)` is no longer than `n * s`, rounded down.
proof fn lemma_gap_of_rounded_part(dx: int, dy: int, gx: int, gy: int, n: int, s: int, d: int)
    requires
        1 <= n,
        0 <= s,
        abs(n * gx - dx) < n,
        abs(n * gy - dy) < n,
        dx * dx + dy * dy < (d + 1) * (d + 1),
        0 <= d <= n * s,
    ensures
        gx * gx + gy * gy < (s + 3) * (s + 3),
        (n * s) * (n * s) <= dx * dx + dy * dy ==> s * s <= gx * gx + gy * gy + 3 * s + 3,
{
    let u = n * gx - dx;
    let v = n * gy - dy;
    let m = n * s + 1;
    let big_d = dx * dx + dy * dy;
    let e = u * u + v * v;
    let x = dx * u + dy * v;
    let g = gx * gx + gy * gy;
    assert(u * u <= n * n && v * v <= n * n && 0 <= u * u && 0 <= v * v) by (nonlinear_arith)
        requires
            -n < u < n,
            -n < v < n,
    ;
    lemma_square_monotone(d + 1, m);
    assert(0 <= big_d < m * m) by (nonlinear_arith)
        requires
            big_d == dx * dx + dy * dy,
            big_d < (d + 1) * (d + 1),
            (d + 1) * (d + 1) <= m * m,
    ;
    lemma_cauchy_schwarz(dx, dy, u, v);
    assert(x * x <= big_d * e);
    assert(big_d * e <= (m * m) * (2 * (n * n))) by (nonlinear_arith)
        requires
            0 <= big_d < m * m,
            0 <= e <= 2 * (n * n),
    ;
    assert(-3 * (n * m) <= 2 * x <= 3 * (n * m)) by (nonlinear_arith)
        requires
            x * x <= (m * m) * (2 * (n * n)),
            n >= 1,
            m >= 1,
    ;
    let ax = n * gx;
    let ay = n * gy;
    assert(ax * ax == dx * dx + 2 * (dx * u) + u * u) by (nonlinear_arith)
        requires
            ax == dx + u,
    ;
    assert(ay * ay == dy * dy + 2 * (dy * v) + v * v) by (nonlinear_arith)
        requires
            ay == dy + v,
    ;
    assert((n * n) * (gx * gx) == ax * ax) by (nonlinear_arith)
        requires
            ax == n * gx,
    ;
    assert((n * n) * (gy * gy) == ay * ay) by (nonlinear_arith)
        requires
            ay == n * gy,
    ;
    assert(n * n * g == (n * n) * (gx * gx) + (n * n) * (gy * gy)) by (nonlinear_arith)
        requires
            g == gx * gx + gy * gy,
    ;
    assert(n * n * g == big_d + 2 * x + e);
    assert(4 * (n * n * g) < (2 * m + 3 * n) * (2 * m + 3 * n)) by (nonlinear_arith)
        requires
            n * n * g == big_d + 2 * x + e,
            big_d < m * m,
            2 * x <= 3 * (n * m),
            e <= 2 * (n * n),
            n >= 1,
    ;
    assert((2 * m + 3 * n) * (2 * m + 3 * n) <= (n * n) * ((2 * s + 5) * (2 * s + 5)))
        by (nonlinear_arith)
        requires
            m == n * s + 1,
            n >= 1,
            s >= 0,
    ;
    assert(4 * g < (2 * s + 5) * (2 * s + 5)) by (nonlinear_arith)
        requires
            4 * (n * n * g) < (n * n) * ((2 * s + 5) * (2 * s + 5)),
            n >= 1,
    ;
    assert(g < (s + 3) * (s + 3)) by (nonlinear_arith)
        requires
            4 * g < (2 * s + 5) * (2 * s + 5),
            s >= 0,
    ;
    if (n * s) * (n * s) <= big_d {
        assert((n * n) * (g + 3 * s + 3 - s * s) >= 0) by (nonlinear_arith)
            requires
                n * n * g == big_d + 2 * x + e,
                (n * s) * (n * s) <= big_d,
                -3 * (n * m) <= 2 * x,
                m == n * s + 1,
                0 <= e,
                n >= 1,
                s >= 0,
        ;
        assert(g + 3 * s + 3 - s * s >= 0) by (nonlinear_arith)
            requires
                (n * n) * (g + 3 * s + 3 - s * s) >= 0,
                n >= 1,
        ;
    }
}

/// The stamp, or at the end of the move the raw sample, that follows the
/// `i`-th stamp of a move.
pub open spec fn successor(
    from: StrokePositionalData,
    to: StrokePositionalData,
    steps: nat,
    i: int,
) -> StrokePositionalData {
    if i + 1 < steps {
        resampled(from, to, steps)[i + 1]
    } else {
        to
    }
}

/// The square of the straight-line distance from the `i`-th stamp of a move
/// to its successor.
pub open spec fn gap_squared(
    from: StrokePositionalData,
    to: StrokePositionalData,
    steps: nat,
    i: int,
) -> int {
    let p = resampled(from, to, steps)[i];
    let q = successor(from, to, steps, i);
    (q.x - p.x) * (q.x - p.x) + (q.y - p.y) * (q.y - p.y)
}

/// `lemma_gap_of_rounded_part` for the stamps of a move.
proof fn lemma_gap_squared_bounds(
    from: StrokePositionalData,
    to: StrokePositionalData,
    steps: nat,
    spacing: nat,
    i: int,
)
    requires
        0 <= i < steps,
        spec_distance(from.position(), to.position()) <= steps * spacing,
    ensures
        0 <= gap_squared(from, to, steps, i) < (spacing + 3) * (spacing + 3),
        spec_distance(from.position(), to.position()) == steps * spacing ==> spacing * spacing
            <= gap_squared(from, to, steps, i) + 3 * spacing + 3,
        spec_distance(
            resampled(from, to, steps)[i].position(),
            successor(from, to, steps, i).position(),
        ) == floor_sqrt(gap_squared(from, to, steps, i) as nat),
{
    let n = steps as int;
    let p = resampled(from, to, steps)[i];
    let q = successor(from, to, steps, i);
    let dx = to.x - from.x;
    let dy = to.y - from.y;
    let gx = q.x - p.x;
    let gy = q.y - p.y;
    let d = spec_distance(from.position(), to.position()) as int;
    lemma_lerp_between(from.x as int, to.x as int, i, n);
    lemma_lerp_between(from.y as int, to.y as int, i, n);
    lemma_lerp_between(from.x as int, to.x as int, i + 1, n);
    lemma_lerp_between(from.y as int, to.y as int, i + 1, n);
    lemma_lerp_step(from.x as int, to.x as int, i, n);
    lemma_lerp_step(from.y as int, to.y as int, i, n);
    assert(0 <= dx * dx && 0 <= dy * dy && 0 <= gx * gx && 0 <= gy * gy) by (nonlinear_arith);
    lemma_floor_sqrt_bounds((dx * dx + dy * dy) as nat);
    if d == n * spacing {
        assert(d * d == (n * spacing) * (n * spacing));
    }
    lemma_gap_of_rounded_part(dx, dy, gx, gy, n, spacing as int, d);
}

/// Where the raw sample is no further from the raw sample before it than
/// the stamps emitted can cover (`steps * spacing`), the straight-line
/// distance between two neighbouring stamps of the move, and between the
/// last of them and the raw sample, exceeds `spacing` by two thousandths at
/// most: what rounding to whole thousandths can add.
pub proof fn lemma_resampled_distance(
    from: StrokePositionalData,
    to: StrokePositionalData,
    steps: nat,
    spacing: nat,
    i: int,
)
    requires
        0 <= i < steps,
        spec_distance(from.position(), to.position()) <= steps * spacing,
    ensures
        spec_distance(
            resampled(from, to, steps)[i].position(),
            successor(from, to, steps, i).position(),
        ) <= spacing + 2,
{
    let g = gap_squared(from, to, steps, i);
    let gap = floor_sqrt(g as nat) as int;
    lemma_gap_squared_bounds(from, to, steps, spacing, i);
    lemma_floor_sqrt_bounds(g as nat);
    if gap >= spacing + 3 {
        lemma_square_monotone((spacing + 3) as int, gap);
    }
}

/// Where the raw sample lies exactly `steps * spacing` from the raw sample
/// before it, the stamps of the move are `spacing` apart: the straight-line
/// distance from each to the next, and from the last to the raw sample, is
/// `spacing` but for the rounding to whole thousandths, which takes off no
/// more than three of them and adds no more than two.
pub proof fn lemma_resampled_spacing(
    from: StrokePositionalData,
    to: StrokePositionalData,
    steps: nat,
    spacing: nat,
    i: int,
)
    requires
        0 <= i < steps,
        spec_distance(from.position(), to.position()) == steps * spacing,
    ensures
        spacing - 3 <= spec_distance(
            resampled(from, to, steps)[i].position(),
            successor(from, to, steps, i).position(),
        ) <= spacing + 2,
{
    let g = gap_squared(from, to, steps, i);
    let gap = floor_sqrt(g as nat) as int;
    lemma_resampled_distance(from, to, steps, spacing, i);
    lemma_gap_squared_bounds(from, to, steps, spacing, i);
    lemma_floor_sqrt_bounds(g as nat);
    if gap + 4 <= spacing {
        lemma_square_monotone(gap + 1, spacing - 3);
        assert((spacing - 3) * (spacing - 3) <= spacing * spacing - 3 * spacing - 3)
            by (nonlinear_arith)
            requires
                spacing >= 4,
        ;
    }
}

/// The same for a stroke: after a move whose raw sample is within reach of
/// the stamps emitted, each stamp that the move added to the stroke lies
/// within `spacing` of what follows it, along each axis and, but for two
/// thousandths, in a straight line. What follows the last stamp is the new
/// raw sample.
pub proof fn lemma_advanced_gap(stroke: StrokeView, point: StrokePositionalData, j: int)
    requires
        stroke.wf(),
        spec_distance(stroke.last_sample.position(), point.position()) <= stroke.steps(point)
            * stroke.spacing,
        stroke.points.len() <= j < stroke.advanced(point).points.len(),
    ensures
        ({
            let after = stroke.advanced(point);
            let p = after.points[j];
            let q = if j + 1 < after.points.len() {
                after.points[j + 1]
            } else {
                after.last_sample
            };
            &&& abs(q.x - p.x) <= stroke.spacing
            &&& abs(q.y - p.y) <= stroke.spacing
            &&& spec_distance(p.position(), q.position()) <= stroke.spacing + 2
        }),
{
    let k = j - stroke.points.len();
    lemma_resampled_gap(stroke.last_sample, point, stroke.steps(point), stroke.spacing, k);
    lemma_resampled_distance(stroke.last_sample, point, stroke.steps(point), stroke.spacing, k);
}

} // verus!
