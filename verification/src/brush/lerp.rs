use crate::geometry::{abs, abs_diff};
use vstd::arithmetic::div_mod::{
    lemma_fundamental_div_mod, lemma_fundamental_div_mod_converse, lemma_mod_bound,
};
use vstd::prelude::*;

verus! {

/// The coordinate a fraction `i / n` of the way from `a` to `b`, rounded
/// toward `a`.
pub open spec fn lerp(a: int, b: int, i: int, n: int) -> int {
    if b >= a {
        a + ((b - a) * i) / n
    } else {
        a - ((a - b) * i) / n
    }
}

/// The quotient of a product by one of its factors' upper bound stays below
/// the other factor.
proof fn lemma_scaled_fraction(diff: int, i: int, n: int)
    requires
        0 <= diff,
        0 <= i <= n,
        0 < n,
    ensures
        0 <= (diff * i) / n <= diff,
        n * ((diff * i) / n) <= diff * i < n * ((diff * i) / n) + n,
        i == 0 ==> (diff * i) / n == 0,
        i == n ==> (diff * i) / n == diff,
{
    let p = diff * i;
    let q = p / n;
    assert(0 <= p <= diff * n) by (nonlinear_arith)
        requires
            0 <= diff,
            0 <= i <= n,
            p == diff * i,
    ;
    lemma_fundamental_div_mod(p, n);
    lemma_mod_bound(p, n);
    assert(0 <= q <= diff) by (nonlinear_arith)
        requires
            p == n * q + p % n,
            0 <= p % n < n,
            0 <= p <= diff * n,
            0 < n,
            0 <= diff,
    ;
    if i == 0 {
        assert(p == 0) by (nonlinear_arith)
            requires
                p == diff * i,
                i == 0,
        ;
    }
    if i == n {
        assert(q == diff) by (nonlinear_arith)
            requires
                p == n * q + p % n,
                0 <= p % n < n,
                p == diff * n,
                0 < n,
        ;
    }
}

/// An interpolated coordinate lies between the two ends, starts at the first
/// and — at the fraction one — reaches the second.
pub proof fn lemma_lerp_between(a: int, b: int, i: int, n: int)
    requires
        0 <= i <= n,
        0 < n,
    ensures
        a <= b ==> a <= lerp(a, b, i, n) <= b,
        b <= a ==> b <= lerp(a, b, i, n) <= a,
        lerp(a, b, 0, n) == a,
        lerp(a, b, n, n) == b,
{
    lemma_scaled_fraction(abs(b - a), i, n);
    lemma_scaled_fraction(abs(b - a), 0, n);
    lemma_scaled_fraction(abs(b - a), n, n);
}

/// An interpolated coordinate is the exact point of the line, rounded by
/// less than one step: `n` times its advance differs from `i` times the whole
/// advance by less than `n`.
pub proof fn lemma_lerp_on_line(a: int, b: int, i: int, n: int)
    requires
        0 <= i <= n,
        0 < n,
    ensures
        abs(n * (lerp(a, b, i, n) - a) - i * (b - a)) < n,
        a <= b ==> n * (lerp(a, b, i, n) - a) <= i * (b - a),
        b <= a ==> n * (lerp(a, b, i, n) - a) >= i * (b - a),
{
    let diff = abs(b - a);
    let q = (diff * i) / n;
    lemma_scaled_fraction(diff, i, n);
    assert(diff * i == i * diff) by (nonlinear_arith);
    assert(diff == 0 ==> i * diff == 0 && n * q == 0) by (nonlinear_arith)
        requires
            0 <= q <= diff,
    ;
    if b >= a {
        assert(lerp(a, b, i, n) - a == q);
    } else {
        assert(lerp(a, b, i, n) - a == -q);
        assert(n * (-q) == -(n * q)) by (nonlinear_arith);
        assert(i * (b - a) == -(i * diff)) by (nonlinear_arith)
            requires
                diff == -(b - a),
        ;
    }
}

/// Two neighbouring interpolated coordinates advance by the `n`-th part of
/// the whole advance, rounded down or up, and never go backward.
pub proof fn lemma_lerp_step(a: int, b: int, i: int, n: int)
    requires
        0 <= i < n,
    ensures
        abs(n * (lerp(a, b, i + 1, n) - lerp(a, b, i, n)) - (b - a)) < n,
        a <= b ==> lerp(a, b, i, n) <= lerp(a, b, i + 1, n),
        b <= a ==> lerp(a, b, i, n) >= lerp(a, b, i + 1, n),
{
    let p0 = lerp(a, b, i, n);
    let p1 = lerp(a, b, i + 1, n);
    lemma_lerp_on_line(a, b, i, n);
    lemma_lerp_on_line(a, b, i + 1, n);
    let e0 = n * (p0 - a) - i * (b - a);
    let e1 = n * (p1 - a) - (i + 1) * (b - a);
    assert(n * (p1 - p0) - (b - a) == e1 - e0) by (nonlinear_arith)
        requires
            e0 == n * (p0 - a) - i * (b - a),
            e1 == n * (p1 - a) - (i + 1) * (b - a),
    ;
    if a <= b {
        assert(p0 <= p1) by (nonlinear_arith)
            requires
                n * (p1 - p0) - (b - a) > -n,
                b - a >= 0,
                n > 0,
        ;
    }
    if b <= a {
        assert(p0 >= p1) by (nonlinear_arith)
            requires
                n * (p1 - p0) - (b - a) < n,
                b - a <= 0,
                n > 0,
        ;
    }
}

/// Where the whole advance is at most `n * bound`, neighbouring interpolated
/// coordinates are at most `bound` apart.
pub proof fn lemma_lerp_gap(a: int, b: int, i: int, n: int, bound: int)
    requires
        0 <= i < n,
        abs(b - a) <= n * bound,
    ensures
        abs(lerp(a, b, i + 1, n) - lerp(a, b, i, n)) <= bound,
{
    let p0 = lerp(a, b, i, n);
    let p1 = lerp(a, b, i + 1, n);
    lemma_lerp_step(a, b, i, n);
    let d = p1 - p0;
    assert(abs(d) <= bound) by (nonlinear_arith)
        requires
            abs(n * d - (b - a)) < n,
            abs(b - a) <= n * bound,
            a <= b ==> d >= 0,
            b <= a ==> d <= 0,
            n > 0,
    ;
}

/// Where the whole advance is `n` times `step`, the interpolated coordinates
/// are exactly `step` apart: the `i`-th lies `i * step` from the start.
pub proof fn lemma_lerp_exact(a: int, b: int, i: int, n: int, step: int)
    requires
        0 <= i <= n,
        0 < n,
        abs(b - a) == n * step,
    ensures
        b >= a ==> lerp(a, b, i, n) == a + i * step,
        b < a ==> lerp(a, b, i, n) == a - i * step,
{
    let diff = abs(b - a);
    assert(diff * i == (i * step) * n + 0 && 0 <= i * step) by (nonlinear_arith)
        requires
            diff == n * step,
            0 <= diff,
            0 <= i,
            0 < n,
    ;
    lemma_fundamental_div_mod_converse(diff * i, n, i * step, 0);
}

/// Computes [`lerp`].
pub fn lerp_coordinate(a: i32, b: i32, i: u64, n: u64) -> (c: i32)
    requires
        i <= n,
        0 < n,
    ensures
        c == lerp(a as int, b as int, i as int, n as int),
{
    let diff: u64 = abs_diff(a, b);
    proof {
        lemma_scaled_fraction(diff as int, i as int, n as int);
    }
    assert(0 <= diff * i <= 0xffff_ffff * 0xffff_ffff_ffff_ffff) by (nonlinear_arith)
        requires
            0 <= diff <= 0xffff_ffff,
            0 <= i <= 0xffff_ffff_ffff_ffff,
    ;
    let moved: u128 = ((diff as u128) * (i as u128)) / (n as u128);
    if b >= a {
        (a as i64 + moved as i64) as i32
    } else {
        (a as i64 - moved as i64) as i32
    }
}

} // verus!
