//! Axis-aligned rectangles `[left, top, width, height]`: point containment,
//! and the vertical deflection that a hit on a paddle gives the ball.

use vstd::arithmetic::div_mod::{
    lemma_div_by_self, lemma_div_is_ordered, lemma_fundamental_div_mod_converse,
};
use vstd::prelude::*;

verus! {

/// Half of the range of deflections: a hit gives a value in `[-2, 2]`.
pub const DEFLECTION: i64 = 2;

/// The point `(x, y)` lies in `rect`, edges included.
pub open spec fn contains(rect: Seq<i64>, x: int, y: int) -> bool {
    &&& rect[0] <= x <= rect[0] + rect[2]
    &&& rect[1] <= y <= rect[1] + rect[3]
}

/// Division of `n` by a positive `d`, rounded away from zero: the sign of `n`
/// times the ceiling of `|n| / d`.
pub open spec fn away_div(n: int, d: int) -> int {
    if n >= 0 {
        (n + d - 1) / d
    } else {
        -((-n + d - 1) / d)
    }
}

/// Deflection for a hit at height `y` on a rectangle spanning `[top, top + height]`:
/// `DEFLECTION * (2 * (y - top) / height - 1)`, rounded away from zero. It is `-2`
/// at the top edge, `0` exactly at the centre, `2` at the bottom edge, negative
/// anywhere above the centre and positive anywhere below it.
pub open spec fn deflection(top: int, height: int, y: int) -> int {
    away_div(DEFLECTION * (2 * (y - top) - height), height)
}

/// Whether the point `(x, y)` lies in `rect`, edges included.
pub fn hit_rect(rect: [i64; 4], x: i64, y: i64) -> (r: bool)
    ensures
        r == contains(rect@, x as int, y as int),
{
    let right = rect[0] as i128 + rect[2] as i128;
    let bottom = rect[1] as i128 + rect[3] as i128;
    rect[0] <= x && x as i128 <= right && rect[1] <= y && y as i128 <= bottom
}

/// The deflection that a hit at height `y` on `rect` gives the ball's vertical speed.
pub fn gen_y_offset(rect: [i64; 4], y: i64) -> (r: i64)
    requires
        rect@[3] > 0,
        i64::MIN <= deflection(rect@[1] as int, rect@[3] as int, y as int) <= i64::MAX,
    ensures
        r == deflection(rect@[1] as int, rect@[3] as int, y as int),
        2 * (y - rect@[1]) < rect@[3] ==> r < 0,
        2 * (y - rect@[1]) == rect@[3] ==> r == 0,
        2 * (y - rect@[1]) > rect@[3] ==> r > 0,
{
    proof {
        lemma_deflection_sign(rect@[1] as int, rect@[3] as int, y as int);
    }
    let height = rect[3] as i128;
    let n: i128 = 2 * (2 * (y as i128 - rect[1] as i128) - height);
    if n >= 0 {
        ((n + height - 1) / height) as i64
    } else {
        let q: i128 = (-n + height - 1) / height;
        (-q) as i64
    }
}

/// Containment is inclusive: points strictly inside a rectangle and points on
/// its edges are in it, points strictly beyond an edge are not.
pub proof fn lemma_contains_inclusive(rect: [i64; 4], x: int, y: int)
    requires
        rect@[2] >= 0,
        rect@[3] >= 0,
    ensures
        rect@[0] < x < rect@[0] + rect@[2] && rect@[1] < y < rect@[1] + rect@[3]
            ==> contains(rect@, x, y),
        (x == rect@[0] || x == rect@[0] + rect@[2]) && rect@[1] <= y <= rect@[1] + rect@[3]
            ==> contains(rect@, x, y),
        (y == rect@[1] || y == rect@[1] + rect@[3]) && rect@[0] <= x <= rect@[0] + rect@[2]
            ==> contains(rect@, x, y),
        x < rect@[0] || x > rect@[0] + rect@[2] || y < rect@[1] || y > rect@[1] + rect@[3]
            ==> !contains(rect@, x, y),
{
}

/// Rounding away from zero keeps the order of numerators.
proof fn lemma_away_div_ordered(a: int, b: int, d: int)
    requires
        d > 0,
        a <= b,
    ensures
        away_div(a, d) <= away_div(b, d),
{
    if a >= 0 {
        lemma_div_is_ordered(a + d - 1, b + d - 1, d);
    } else if b >= 0 {
        lemma_div_is_ordered(0, -a + d - 1, d);
        lemma_div_is_ordered(0, b + d - 1, d);
    } else {
        lemma_div_is_ordered(-b + d - 1, -a + d - 1, d);
    }
}

/// Rounding away from zero keeps the sign: zero only for zero.
proof fn lemma_away_div_sign(n: int, d: int)
    requires
        d > 0,
    ensures
        n == 0 ==> away_div(n, d) == 0,
        n > 0 ==> away_div(n, d) > 0,
        n < 0 ==> away_div(n, d) < 0,
{
    lemma_fundamental_div_mod_converse(d - 1, d, 0, d - 1);
    lemma_div_by_self(d);
    if n > 0 {
        lemma_div_is_ordered(d, n + d - 1, d);
    } else if n < 0 {
        lemma_div_is_ordered(d, -n + d - 1, d);
    }
}

/// `k * d`, rounded away from zero, divides back to `k`.
proof fn lemma_away_div_exact(k: int, d: int)
    requires
        d > 0,
    ensures
        away_div(k * d, d) == k,
{
    if k >= 0 {
        assert(k * d >= 0) by (nonlinear_arith)
            requires
                k >= 0,
                d > 0,
        ;
        lemma_fundamental_div_mod_converse(k * d + d - 1, d, k, d - 1);
    } else {
        assert(k * d < 0) by (nonlinear_arith)
            requires
                k < 0,
                d > 0,
        ;
        assert(-(k * d) == (-k) * d) by (nonlinear_arith);
        lemma_fundamental_div_mod_converse((-k) * d + d - 1, d, -k, d - 1);
    }
}

/// The deflection never decreases as the hit moves down the rectangle.
proof fn lemma_deflection_ordered(top: int, height: int, y1: int, y2: int)
    requires
        height > 0,
        y1 <= y2,
    ensures
        deflection(top, height, y1) <= deflection(top, height, y2),
{
    lemma_away_div_ordered(
        DEFLECTION * (2 * (y1 - top) - height),
        DEFLECTION * (2 * (y2 - top) - height),
        height,
    );
}

/// The deflection is zero exactly at the vertical centre, negative above it
/// and positive below it.
pub proof fn lemma_deflection_sign(top: int, height: int, y: int)
    requires
        height > 0,
    ensures
        2 * (y - top) < height ==> deflection(top, height, y) < 0,
        2 * (y - top) == height ==> deflection(top, height, y) == 0,
        2 * (y - top) > height ==> deflection(top, height, y) > 0,
{
    lemma_away_div_sign(DEFLECTION * (2 * (y - top) - height), height);
}

/// The deflection that `gen_y_offset` gives never decreases as the hit moves
/// down the rectangle.
pub proof fn lemma_deflection_monotonic(rect: [i64; 4], y1: int, y2: int)
    requires
        rect@[3] > 0,
        y1 <= y2,
    ensures
        deflection(rect@[1] as int, rect@[3] as int, y1) <= deflection(rect@[1] as int, rect@[3] as int, y2),
{
    lemma_deflection_ordered(rect@[1] as int, rect@[3] as int, y1, y2);
}

/// Hits mirrored about the vertical centre of a rectangle (`y1 + y2` is twice
/// the centre) get opposite deflections from `gen_y_offset`.
pub proof fn lemma_deflection_antisymmetric(rect: [i64; 4], y1: int, y2: int)
    requires
        rect@[3] > 0,
        y1 + y2 == 2 * rect@[1] + rect@[3],
    ensures
        deflection(rect@[1] as int, rect@[3] as int, y2) == -deflection(rect@[1] as int, rect@[3] as int, y1),
{
    let top = rect@[1] as int;
    let height = rect@[3] as int;
    assert(DEFLECTION * (2 * (y2 - top) - height) == -(DEFLECTION * (2 * (y1 - top) - height)));
    lemma_away_div_sign(DEFLECTION * (2 * (y1 - top) - height), height);
}

/// A hit on the rectangle itself gives a deflection in `[-DEFLECTION, DEFLECTION]`.
pub proof fn lemma_deflection_bounded(top: int, height: int, y: int)
    requires
        height > 0,
        top <= y <= top + height,
    ensures
        -DEFLECTION <= deflection(top, height, y) <= DEFLECTION,
{
    lemma_deflection_ordered(top, height, top, y);
    lemma_deflection_ordered(top, height, y, top + height);
    assert(DEFLECTION * (2 * (top - top) - height) == (-2) * height);
    lemma_away_div_exact(-2, height);
    assert(DEFLECTION * (2 * (top + height - top) - height) == 2 * height);
    lemma_away_div_exact(2, height);
}

} // verus!
