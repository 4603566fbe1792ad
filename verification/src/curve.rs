use crate::arithmetic::floor_sqrt;
use crate::arithmetic::isqrt;
use crate::arithmetic::lemma_floor_sqrt_exists;
use crate::arithmetic::lemma_floor_sqrt_unique;
use crate::arithmetic::product_less;
use crate::line::in_box;
use crate::line::lemma_line_in_box;
use crate::line::spec_line;
use crate::point::PrimitivePoint;
use crate::point::lemma_product_bounds;
use vstd::arithmetic::div_mod::lemma_div_is_ordered;
use vstd::arithmetic::div_mod::lemma_div_pos_is_pos;
use vstd::prelude::*;

verus! {

/// The squared distance between two points.
pub open spec fn spec_distance_squared(p: PrimitivePoint, q: PrimitivePoint) -> int {
    (p.x - q.x) * (p.x - q.x) + (p.y - q.y) * (p.y - q.y)
}

pub fn distance_squared(p: PrimitivePoint, q: PrimitivePoint) -> (d: u128)
    ensures
        d == spec_distance_squared(p, q),
        d < 0x2_0000_0000_0000_0000,
{
    let dx: i128 = p.x as i128 - q.x as i128;
    let dy: i128 = p.y as i128 - q.y as i128;
    proof {
        lemma_product_bounds(dx as int, dx as int);
        lemma_product_bounds(dy as int, dy as int);
        assert(dx * dx >= 0 && dy * dy >= 0) by (nonlinear_arith);
    }
    (dx * dx + dy * dy) as u128
}

/// Twice the root of `a * b`, rounded down. The square of a sum of two roots
/// is `(sqrt a + sqrt b)^2 = a + b + 2 sqrt(a b)`, so that this is the part
/// of it that is no integer.
pub open spec fn spec_cross_root(a: int, b: int) -> int {
    floor_sqrt(4 * a * b)
}

/// Computes twice the root of a product by bisection; the product itself
/// need not fit in 128 bits.
pub fn cross_root(a: u128, b: u128) -> (r: u128)
    requires
        a < 0x2_0000_0000_0000_0000,
        b < 0x2_0000_0000_0000_0000,
    ensures
        r == spec_cross_root(a as int, b as int),
        r <= a + b,
{
    let quadruple: u128 = 4 * a;
    let mut lo: u128 = 0;
    let mut hi: u128 = 0x4_0000_0000_0000_0000;
    proof {
        assert(4 * a * b == quadruple * b) by (nonlinear_arith)
            requires
                quadruple == 4 * a,
        ;
        assert(0 <= quadruple * b < hi * hi) by (nonlinear_arith)
            requires
                0 <= quadruple < 0x8_0000_0000_0000_0000,
                0 <= b < 0x2_0000_0000_0000_0000,
                hi == 0x4_0000_0000_0000_0000,
        ;
    }
    while hi - lo > 1
        invariant
            lo < hi <= 0x4_0000_0000_0000_0000,
            quadruple < 0x8_0000_0000_0000_0000,
            b < 0x2_0000_0000_0000_0000,
            lo * lo <= quadruple * b < hi * hi,
        decreases hi - lo,
    {
        let mid: u128 = lo + (hi - lo) / 2;
        if product_less(quadruple, b, mid, mid) {
            hi = mid;
        } else {
            lo = mid;
        }
    }
    proof {
        assert(hi == lo + 1);
        lemma_floor_sqrt_exists(4 * a * b);
        lemma_floor_sqrt_unique(lo as int, floor_sqrt(4 * a * b), 4 * a * b);
        if lo > a + b {
            assert(lo * lo > 4 * a * b) by (nonlinear_arith)
                requires
                    lo >= a + b + 1,
                    a >= 0,
                    b >= 0,
            ;
        }
    }
    lo
}

/// The number of straight pieces in which a curve is walked whose length,
/// estimated by the sum of its control chords, has the square `square`:
/// `sqrt(square + 800) / 8`, rounded down. It is never less than three.
pub open spec fn spec_segments(square: int) -> int {
    floor_sqrt(square + 800) / 8
}

/// No curve is walked in as many pieces as `SEGMENT_LIMIT`.
pub const SEGMENT_LIMIT: u128 = 0x9800_0000;

/// The squared length of no curve reaches `SQUARE_LIMIT`.
pub const SQUARE_LIMIT: u128 = 0x12_0000_0000_0000_0000;

pub fn segments(square: u128) -> (n: u128)
    requires
        square < SQUARE_LIMIT,
    ensures
        n == spec_segments(square as int),
        3 <= n < SEGMENT_LIMIT,
{
    let root: u128 = isqrt(square + 800);
    proof {
        if root < 28 {
            assert((root + 1) * (root + 1) <= 28 * 28) by (nonlinear_arith)
                requires
                    0 <= root + 1 <= 28,
            ;
        }
        if root >= 0x4_4000_0000 {
            assert(root * root >= 0x4_4000_0000 * 0x4_4000_0000) by (nonlinear_arith)
                requires
                    root >= 0x4_4000_0000,
            ;
        }
    }
    root / 8
}

/// `p / q` rounded to the nearest integer, a half rounding away from zero,
/// for a positive `q`.
pub open spec fn rounded_quotient(p: int, q: int) -> int {
    if p >= 0 {
        (2 * p + q) / (2 * q)
    } else {
        -((q - 2 * p) / (2 * q))
    }
}

pub fn rounding_div(p: i128, q: i128) -> (r: i128)
    requires
        0 < q < 0x2000_0000_0000_0000_0000_0000_0000_0000,
        -0x2000_0000_0000_0000_0000_0000_0000_0000 < p < 0x2000_0000_0000_0000_0000_0000_0000_0000,
    ensures
        r == rounded_quotient(p as int, q as int),
{
    if p >= 0 {
        (2 * p + q) / (2 * q)
    } else {
        let n: i128 = q - 2 * p;
        let d: i128 = 2 * q;
        assert(0 <= n / d <= n) by (nonlinear_arith)
            requires
                n >= 0,
                d > 0,
        ;
        -(n / d)
    }
}

/// A curve is walked in three pieces at least.
pub proof fn lemma_segments_at_least_three(square: int)
    requires
        square >= 0,
    ensures
        spec_segments(square) >= 3,
{
    let v = square + 800;
    lemma_floor_sqrt_exists(v);
    let r = floor_sqrt(v);
    if r < 28 {
        assert((r + 1) * (r + 1) <= 28 * 28) by (nonlinear_arith)
            requires
                0 <= r + 1 <= 28,
        ;
    }
}

/// Twice the root of a product of two natural numbers is no negative number.
pub proof fn lemma_cross_root_not_negative(a: int, b: int)
    requires
        a >= 0,
        b >= 0,
    ensures
        spec_cross_root(a, b) >= 0,
{
    assert(4 * a * b >= 0) by (nonlinear_arith)
        requires
            a >= 0,
            b >= 0,
    ;
    lemma_floor_sqrt_exists(4 * a * b);
}

/// The squared distance of two points is no negative number.
pub proof fn lemma_distance_not_negative(p: PrimitivePoint, q: PrimitivePoint)
    ensures
        spec_distance_squared(p, q) >= 0,
{
    assert((p.x - q.x) * (p.x - q.x) >= 0) by (nonlinear_arith);
    assert((p.y - q.y) * (p.y - q.y) >= 0) by (nonlinear_arith);
}

/// Every pixel of a curve lies in each upright box that holds all the
/// samples between which it is walked.
pub proof fn lemma_polyline_in_box(
    samples: spec_fn(int) -> PrimitivePoint,
    pieces: int,
    low: PrimitivePoint,
    high: PrimitivePoint,
    p: PrimitivePoint,
)
    requires
        forall|i: int| 0 <= i <= pieces ==> in_box(#[trigger] samples(i), low, high),
        spec_polyline(samples, pieces).contains(p),
    ensures
        in_box(p, low, high),
    decreases pieces,
{
    if pieces > 0 {
        let before = spec_polyline(samples, pieces - 1);
        let last = spec_line(samples(pieces - 1), samples(pieces));
        let all = before + last;
        let i = choose|i: int| 0 <= i < all.len() && all[i] == p;
        if i < before.len() {
            assert(before[i] == p);
            lemma_polyline_in_box(samples, pieces - 1, low, high, p);
        } else {
            assert(last[i - before.len()] == p);
            lemma_line_in_box(samples(pieces - 1), samples(pieces), low, high, p);
        }
    }
}

/// A whole multiple of the divisor is rounded to its factor.
pub proof fn lemma_rounded_multiple(x: int, q: int)
    requires
        q > 0,
    ensures
        rounded_quotient(x * q, q) == x,
{
    if x * q >= 0 {
        assert(x >= 0) by (nonlinear_arith)
            requires
                x * q >= 0,
                q > 0,
        ;
        assert(2 * (x * q) + q == x * (2 * q) + q) by (nonlinear_arith);
        vstd::arithmetic::div_mod::lemma_fundamental_div_mod_converse(
            2 * (x * q) + q,
            2 * q,
            x,
            q,
        );
    } else {
        assert(x < 0) by (nonlinear_arith)
            requires
                x * q < 0,
                q > 0,
        ;
        assert(q - 2 * (x * q) == (-x) * (2 * q) + q) by (nonlinear_arith);
        vstd::arithmetic::div_mod::lemma_fundamental_div_mod_converse(
            q - 2 * (x * q),
            2 * q,
            -x,
            q,
        );
    }
}

/// Rounding keeps the order of the numerators.
pub proof fn lemma_rounded_monotone(p1: int, p2: int, q: int)
    requires
        q > 0,
        p1 <= p2,
    ensures
        rounded_quotient(p1, q) <= rounded_quotient(p2, q),
{
    if p1 >= 0 {
        lemma_div_is_ordered(2 * p1 + q, 2 * p2 + q, 2 * q);
    } else if p2 < 0 {
        lemma_div_is_ordered(q - 2 * p2, q - 2 * p1, 2 * q);
    } else {
        lemma_div_pos_is_pos(q - 2 * p1, 2 * q);
        lemma_div_pos_is_pos(2 * p2 + q, 2 * q);
    }
}

/// A numerator between two whole multiples of the divisor is rounded to a
/// number between their factors.
pub proof fn lemma_rounded_between(p: int, q: int, low: int, high: int)
    requires
        q > 0,
        low * q <= p <= high * q,
    ensures
        low <= rounded_quotient(p, q) <= high,
{
    lemma_rounded_multiple(low, q);
    lemma_rounded_multiple(high, q);
    lemma_rounded_monotone(low * q, p, q);
    lemma_rounded_monotone(p, high * q, q);
}

/// A coordinate between two bounds, weighted, lies between the bounds
/// weighted alike.
pub proof fn lemma_weighted_between(x: int, w: int, low: int, high: int)
    requires
        low <= x <= high,
        0 <= w,
    ensures
        low * w <= x * w <= high * w,
{
    assert(low * w <= x * w <= high * w) by (nonlinear_arith)
        requires
            low <= x <= high,
            0 <= w,
    ;
}

/// The pixels of a curve walked in `pieces` straight pieces between the
/// samples `samples(0)`, `samples(1)` and so on. Each piece holds both its
/// ends, so that a sample between two pieces is held twice.
pub open spec fn spec_polyline(samples: spec_fn(int) -> PrimitivePoint, pieces: int) -> Seq<
    PrimitivePoint,
>
    decreases pieces,
{
    if pieces <= 0 {
        Seq::empty()
    } else {
        spec_polyline(samples, pieces - 1) + spec_line(samples(pieces - 1), samples(pieces))
    }
}

/// A coordinate times a weight; the product is bounded as the weight is.
pub fn weigh(x: i32, w: i128) -> (r: i128)
    requires
        0 <= w < 0x1_0000_0000_0000_0000_0000_0000,
    ensures
        r == x * w,
        -0x8000_0000 * w <= r <= 0x8000_0000 * w,
{
    assert(-0x8000_0000 * w <= x * w <= 0x8000_0000 * w) by (nonlinear_arith)
        requires
            -0x8000_0000 <= x <= 0x7fff_ffff,
            0 <= w,
    ;
    x as i128 * w
}

/// Products of numbers below the segment limit stay below its powers.
pub proof fn lemma_weight_bounds(a: int, b: int, c: int)
    requires
        0 <= a < SEGMENT_LIMIT,
        0 <= b < SEGMENT_LIMIT,
        0 <= c < SEGMENT_LIMIT,
    ensures
        0 <= a * b < 0x9800_0000 * 0x9800_0000,
        0 <= a * b * c < 0x9800_0000 * 0x9800_0000 * 0x9800_0000,
{
    assert(0 <= a * b < 0x9800_0000 * 0x9800_0000) by (nonlinear_arith)
        requires
            0 <= a < 0x9800_0000,
            0 <= b < 0x9800_0000,
    ;
    let ab = a * b;
    assert(0 <= ab * c < 0x9800_0000 * 0x9800_0000 * 0x9800_0000) by (nonlinear_arith)
        requires
            0 <= ab < 0x9800_0000 * 0x9800_0000,
            0 <= c < 0x9800_0000,
    ;
}

} // verus!
