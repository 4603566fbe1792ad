use crate::point::PrimitivePoint;
use crate::point::spec_abs;
use crate::raster::pixel_at;
use vstd::arithmetic::div_mod::lemma_div_is_ordered;
use vstd::arithmetic::div_mod::lemma_div_pos_is_pos;
use vstd::arithmetic::div_mod::lemma_fundamental_div_mod_converse;
use vstd::prelude::*;

verus! {

/// Whether the segment from `a` to `b` rises more than it runs; such a
/// segment is walked along `y`, every other along `x`.
pub open spec fn spec_steep(a: PrimitivePoint, b: PrimitivePoint) -> bool {
    spec_abs(b.y - a.y) > spec_abs(b.x - a.x)
}

/// The two ends of the segment in walking order, `(u0, v0, u1, v1)`: `u` is
/// the coordinate walked along and `v` the other one, and the walk starts at
/// the end of smaller `u`.
pub open spec fn spec_walk(a: PrimitivePoint, b: PrimitivePoint) -> (int, int, int, int) {
    let ends: (int, int, int, int) = if spec_steep(a, b) {
        (a.y as int, a.x as int, b.y as int, b.x as int)
    } else {
        (a.x as int, a.y as int, b.x as int, b.y as int)
    };
    if ends.0 > ends.2 {
        (ends.2, ends.3, ends.0, ends.1)
    } else {
        ends
    }
}

/// How far the walk has moved across after `i` steps along, over a run of
/// `du` and a rise of `dv`: `i * dv / du` rounded to the nearest integer, a
/// half rounding down.
pub open spec fn spec_across(i: int, du: int, dv: int) -> int {
    if du == 0 {
        0
    } else {
        (2 * i * dv + du - 1) / (2 * du)
    }
}

/// The pixel that the walk from `a` to `b` visits at step `i`.
pub open spec fn spec_line_point(a: PrimitivePoint, b: PrimitivePoint, i: int) -> PrimitivePoint {
    let w = spec_walk(a, b);
    let k = spec_across(i, w.2 - w.0, spec_abs(w.3 - w.1));
    let v = if w.1 < w.3 { w.1 + k } else { w.1 - k };
    if spec_steep(a, b) {
        pixel_at(v, w.0 + i)
    } else {
        pixel_at(w.0 + i, v)
    }
}

/// The pixels of the straight walk between `a` and `b`, both ends included:
/// one pixel for each step along the longer side.
pub open spec fn spec_line(a: PrimitivePoint, b: PrimitivePoint) -> Seq<PrimitivePoint> {
    let w = spec_walk(a, b);
    Seq::new((w.2 - w.0 + 1) as nat, |i: int| spec_line_point(a, b, i))
}

proof fn lemma_across_step(i: int, k: int, e: int, du: int, dv: int)
    requires
        0 < du,
        0 <= dv <= du,
        0 <= i <= du,
        e == du - 2 * (i * dv) + 2 * (k * du),
        0 <= e < 2 * du,
    ensures
        k == spec_across(i, du, dv),
        0 <= k <= dv,
{
    let n = 2 * i * dv + du - 1;
    let r = n - k * (2 * du);
    assert(2 * i * dv == 2 * (i * dv)) by (nonlinear_arith);
    assert(k * (2 * du) == 2 * (k * du)) by (nonlinear_arith);
    lemma_fundamental_div_mod_converse(n, 2 * du, k, r);
    assert(i * dv <= du * dv) by (nonlinear_arith)
        requires
            0 <= i <= du,
            0 <= dv,
    ;
    assert(0 <= i * dv) by (nonlinear_arith)
        requires
            0 <= i,
            0 <= dv,
    ;
    if k > dv {
        assert(k * du >= (dv + 1) * du) by (nonlinear_arith)
            requires
                k >= dv + 1,
                du > 0,
        ;
        assert((dv + 1) * du == du * dv + du) by (nonlinear_arith);
    }
    if k < 0 {
        assert(k * du <= -du) by (nonlinear_arith)
            requires
                k <= -1,
                du > 0,
        ;
    }
}

/// A straight walk has one pixel for each step along its longer side, and it
/// leads from one of its ends to the other.
pub proof fn lemma_line_ends(a: PrimitivePoint, b: PrimitivePoint)
    ensures
        spec_line(a, b).len() == spec_walk(a, b).2 - spec_walk(a, b).0 + 1,
        spec_line(a, b).len() >= 1,
        (spec_line(a, b).first() == a && spec_line(a, b).last() == b) || (spec_line(a, b).first()
            == b && spec_line(a, b).last() == a),
{
    let w = spec_walk(a, b);
    let du = w.2 - w.0;
    let dv = spec_abs(w.3 - w.1);
    if du > 0 {
        assert(2 * 0 * dv + du - 1 == 0 * (2 * du) + (du - 1)) by (nonlinear_arith);
        lemma_fundamental_div_mod_converse(2 * 0 * dv + du - 1, 2 * du, 0, du - 1);
        assert(2 * du * dv + du - 1 == dv * (2 * du) + (du - 1)) by (nonlinear_arith);
        lemma_fundamental_div_mod_converse(2 * du * dv + du - 1, 2 * du, dv, du - 1);
    }
    assert(spec_line(a, b)[0] == spec_line_point(a, b, 0));
    assert(spec_line(a, b)[du] == spec_line_point(a, b, du));
}

/// Whether `p` lies in the upright box between `low` and `high`.
pub open spec fn in_box(p: PrimitivePoint, low: PrimitivePoint, high: PrimitivePoint) -> bool {
    low.x <= p.x <= high.x && low.y <= p.y <= high.y
}

/// The walk never moves farther across than its rise.
pub proof fn lemma_across_bounds(i: int, du: int, dv: int)
    requires
        0 <= i <= du,
        0 <= dv,
    ensures
        0 <= spec_across(i, du, dv) <= dv,
{
    if du > 0 {
        assert(0 <= 2 * i * dv <= 2 * du * dv) by (nonlinear_arith)
            requires
                0 <= i <= du,
                0 <= dv,
        ;
        assert(2 * du * dv + du - 1 == dv * (2 * du) + (du - 1)) by (nonlinear_arith);
        lemma_fundamental_div_mod_converse(2 * du * dv + du - 1, 2 * du, dv, du - 1);
        lemma_div_is_ordered(2 * i * dv + du - 1, 2 * du * dv + du - 1, 2 * du);
        lemma_div_pos_is_pos(2 * i * dv + du - 1, 2 * du);
    }
}

/// Every pixel of a straight walk lies in each upright box that holds both
/// its ends.
pub proof fn lemma_line_in_box(
    a: PrimitivePoint,
    b: PrimitivePoint,
    low: PrimitivePoint,
    high: PrimitivePoint,
    p: PrimitivePoint,
)
    requires
        in_box(a, low, high),
        in_box(b, low, high),
        spec_line(a, b).contains(p),
    ensures
        in_box(p, low, high),
{
    let w = spec_walk(a, b);
    let i = choose|i: int| 0 <= i < spec_line(a, b).len() && spec_line(a, b)[i] == p;
    lemma_across_bounds(i, w.2 - w.0, spec_abs(w.3 - w.1));
}

/// Appends the pixels of the straight walk between `a` and `b`.
pub fn append_line(pixels: &mut Vec<PrimitivePoint>, a: PrimitivePoint, b: PrimitivePoint)
    ensures
        final(pixels)@ == old(pixels)@ + spec_line(a, b),
{
    let rise: i64 = if b.y >= a.y { b.y as i64 - a.y as i64 } else { a.y as i64 - b.y as i64 };
    let run: i64 = if b.x >= a.x { b.x as i64 - a.x as i64 } else { a.x as i64 - b.x as i64 };
    let steep: bool = rise > run;
    let (s0, t0, s1, t1): (i64, i64, i64, i64) = if steep {
        (a.y as i64, a.x as i64, b.y as i64, b.x as i64)
    } else {
        (a.x as i64, a.y as i64, b.x as i64, b.y as i64)
    };
    let (u0, v0, u1, v1): (i64, i64, i64, i64) = if s0 > s1 {
        (s1, t1, s0, t0)
    } else {
        (s0, t0, s1, t1)
    };
    assert((u0 as int, v0 as int, u1 as int, v1 as int) == spec_walk(a, b));
    let du: i64 = u1 - u0;
    let dv: i64 = if v1 >= v0 { v1 - v0 } else { v0 - v1 };
    let ghost before = pixels@;
    let mut error: i64 = du;
    let mut across: i64 = 0;
    let mut i: i64 = 0;
    assert(0 * dv == 0 && 0 * du == 0);
    while i <= du
        invariant
            0 <= i <= du + 1,
            0 <= dv <= du <= u32::MAX,
            (u0 as int, v0 as int, u1 as int, v1 as int) == spec_walk(a, b),
            steep == spec_steep(a, b),
            du == u1 - u0,
            dv == spec_abs(v1 - v0),
            i32::MIN <= u0 <= u1 <= i32::MAX,
            i32::MIN <= v0 <= i32::MAX,
            i32::MIN <= v1 <= i32::MAX,
            du > 0 && i <= du ==> error == du - 2 * (i * dv) + 2 * (across * du),
            du > 0 && i <= du ==> 0 <= error < 2 * du,
            du == 0 ==> across == 0,
            0 <= across <= dv,
            -2 * du <= error <= 2 * du,
            pixels@ == before + Seq::new(i as nat, |j: int| spec_line_point(a, b, j)),
        decreases du + 1 - i,
    {
        proof {
            if du > 0 {
                lemma_across_step(i as int, across as int, error as int, du as int, dv as int);
            }
        }
        let v: i64 = if v0 < v1 { v0 + across } else { v0 - across };
        let u: i64 = u0 + i;
        let p = if steep {
            PrimitivePoint::new(v as i32, u as i32)
        } else {
            PrimitivePoint::new(u as i32, v as i32)
        };
        assert(p == spec_line_point(a, b, i as int));
        pixels.push(p);
        assert(pixels@ == before + Seq::new((i + 1) as nat, |j: int| spec_line_point(a, b, j)));
        let ghost old_i = i;
        let ghost old_across = across;
        i += 1;
        if du > 0 && i <= du {
            error -= 2 * dv;
            if error < 0 {
                across += 1;
                error += 2 * du;
            }
            proof {
                assert((old_i + 1) * dv == old_i * dv + dv) by (nonlinear_arith);
                assert((old_across + 1) * du == old_across * du + du) by (nonlinear_arith);
                lemma_across_step(i as int, across as int, error as int, du as int, dv as int);
            }
        }
    }
}

} // verus!
