use crate::canvas::Canvas;
use crate::canvas::Color;
use crate::canvas::colors_at;
use crate::canvas::mean_color;
use crate::canvas::painted;
use crate::curve::SEGMENT_LIMIT;
use crate::curve::cross_root;
use crate::curve::distance_squared;
use crate::curve::lemma_cross_root_not_negative;
use crate::curve::lemma_distance_not_negative;
use crate::curve::lemma_polyline_in_box;
use crate::curve::lemma_rounded_between;
use crate::curve::lemma_rounded_multiple;
use crate::curve::lemma_segments_at_least_three;
use crate::curve::lemma_weight_bounds;
use crate::curve::lemma_weighted_between;
use crate::curve::rounded_quotient;
use crate::curve::rounding_div;
use crate::curve::segments;
use crate::curve::spec_cross_root;
use crate::curve::spec_distance_squared;
use crate::curve::spec_polyline;
use crate::curve::spec_segments;
use crate::curve::weigh;
use crate::line::append_line;
use crate::line::in_box;
use crate::point::PrimitivePoint;
use crate::point::max3;
use crate::point::min3;
use crate::point::spec_max3;
use crate::point::spec_min3;
use crate::primitive_image::PrimitiveImage;
use crate::random::uniform_i32;
use crate::scale::Ratio;
use crate::shape::MAXIMUM_MUTATION_ATTEMPTS;
use crate::shape::Retry;
use crate::shape::ShapeError;
use crate::shape::after_change;
use rand::rngs::StdRng;
use vstd::prelude::*;

verus! {

/// One coordinate of the quadratic curve through `x0`, `x1`, `x2` at the
/// parameter `i / n`: the Bernstein weights `(n - i)^2`, `2 (n - i) i` and
/// `i^2` over `n^2`, rounded to the nearest pixel.
pub open spec fn spec_quadratic_mix(x0: int, x1: int, x2: int, i: int, n: int) -> int {
    rounded_quotient(
        x0 * ((n - i) * (n - i)) + x1 * (2 * ((n - i) * i)) + x2 * (i * i),
        n * n,
    )
}

/// A coordinate of a quadratic curve lies between the least and the greatest
/// of the three coordinates that it is mixed from.
pub proof fn lemma_quadratic_mix_between(x0: int, x1: int, x2: int, i: int, n: int)
    requires
        0 <= i <= n,
        0 < n,
    ensures
        spec_min3(x0, x1, x2) <= spec_quadratic_mix(x0, x1, x2, i, n) <= spec_max3(x0, x1, x2),
{
    let low = spec_min3(x0, x1, x2);
    let high = spec_max3(x0, x1, x2);
    let back = n - i;
    let w0 = back * back;
    let w1 = 2 * (back * i);
    let w2 = i * i;
    assert(w0 >= 0 && w1 >= 0 && w2 >= 0 && w0 + w1 + w2 == n * n && n * n > 0)
        by (nonlinear_arith)
        requires
            back >= 0,
            i >= 0,
            back + i == n,
            n > 0,
            w0 == back * back,
            w1 == 2 * (back * i),
            w2 == i * i,
    ;
    lemma_weighted_between(x0, w0, low, high);
    lemma_weighted_between(x1, w1, low, high);
    lemma_weighted_between(x2, w2, low, high);
    assert(low * w0 + low * w1 + low * w2 == low * (n * n)) by (nonlinear_arith)
        requires
            w0 + w1 + w2 == n * n,
    ;
    assert(high * w0 + high * w1 + high * w2 == high * (n * n)) by (nonlinear_arith)
        requires
            w0 + w1 + w2 == n * n,
    ;
    lemma_rounded_between(x0 * w0 + x1 * w1 + x2 * w2, n * n, low, high);
}

fn quadratic_mix(x0: i32, x1: i32, x2: i32, i: u64, n: u64) -> (r: i32)
    requires
        0 < n < SEGMENT_LIMIT,
        i <= n,
    ensures
        r == spec_quadratic_mix(x0 as int, x1 as int, x2 as int, i as int, n as int),
{
    let back: i128 = (n - i) as i128;
    let forth: i128 = i as i128;
    let whole: i128 = n as i128;
    proof {
        lemma_weight_bounds(back as int, back as int, 1);
        lemma_weight_bounds(back as int, forth as int, 1);
        lemma_weight_bounds(forth as int, forth as int, 1);
        lemma_weight_bounds(whole as int, whole as int, 1);
        assert(back * back + 2 * (back * forth) + forth * forth == whole * whole)
            by (nonlinear_arith)
            requires
                back + forth == whole,
        ;
        assert(whole * whole > 0) by (nonlinear_arith)
            requires
                whole > 0,
        ;
    }
    let w0: i128 = back * back;
    let w1: i128 = 2 * (back * forth);
    let w2: i128 = forth * forth;
    let total: i128 = weigh(x0, w0) + weigh(x1, w1) + weigh(x2, w2);
    proof {
        lemma_quadratic_mix_between(x0 as int, x1 as int, x2 as int, i as int, n as int);
    }
    rounding_div(total, whole * whole) as i32
}

/// The point at the parameter `i / n` of the quadratic curve from `start` by
/// `control` to `end`, rounded to the nearest pixel.
pub open spec fn spec_quadratic_point(
    start: PrimitivePoint,
    control: PrimitivePoint,
    end: PrimitivePoint,
    i: int,
    n: int,
) -> PrimitivePoint {
    PrimitivePoint {
        x: spec_quadratic_mix(start.x as int, control.x as int, end.x as int, i, n) as i32,
        y: spec_quadratic_mix(start.y as int, control.y as int, end.y as int, i, n) as i32,
    }
}

/// The samples of the quadratic curve at the parameters `0 / n`, `1 / n` and
/// so on.
pub open spec fn quadratic_samples(
    start: PrimitivePoint,
    control: PrimitivePoint,
    end: PrimitivePoint,
    n: int,
) -> spec_fn(int) -> PrimitivePoint {
    |i: int| spec_quadratic_point(start, control, end, i, n)
}

/// The samples of a quadratic curve begin at its start and end at its end.
pub proof fn lemma_quadratic_ends(
    start: PrimitivePoint,
    control: PrimitivePoint,
    end: PrimitivePoint,
    n: int,
)
    requires
        n > 0,
    ensures
        spec_quadratic_point(start, control, end, 0, n) == start,
        spec_quadratic_point(start, control, end, n, n) == end,
{
    assert(n * n > 0) by (nonlinear_arith)
        requires
            n > 0,
    ;
    lemma_quadratic_weights(start.x as int, control.x as int, end.x as int, n);
    lemma_quadratic_weights(start.y as int, control.y as int, end.y as int, n);
    lemma_rounded_multiple(start.x as int, n * n);
    lemma_rounded_multiple(start.y as int, n * n);
    lemma_rounded_multiple(end.x as int, n * n);
    lemma_rounded_multiple(end.y as int, n * n);
}

proof fn lemma_quadratic_weights(x0: int, x1: int, x2: int, n: int)
    ensures
        x0 * ((n - 0) * (n - 0)) + x1 * (2 * ((n - 0) * 0)) + x2 * (0 * 0) == x0 * (n * n),
        x0 * ((n - n) * (n - n)) + x1 * (2 * ((n - n) * n)) + x2 * (n * n) == x2 * (n * n),
{
    assert(x0 * ((n - 0) * (n - 0)) + x1 * (2 * ((n - 0) * 0)) + x2 * (0 * 0) == x0 * (n * n))
        by (nonlinear_arith);
    assert(x0 * ((n - n) * (n - n)) + x1 * (2 * ((n - n) * n)) + x2 * (n * n) == x2 * (n * n))
        by (nonlinear_arith);
}

/// Every pixel of a quadratic curve lies in the smallest upright box around
/// its three points.
pub proof fn lemma_quadratic_pixels_in_box(q: QuadraticBezier, p: PrimitivePoint)
    requires
        q.spec_pixels().contains(p),
    ensures
        in_box(p, q.spec_low_corner(), q.spec_high_corner()),
{
    let n = q.spec_pieces();
    lemma_distance_not_negative(q.start, q.control);
    lemma_distance_not_negative(q.control, q.end);
    lemma_cross_root_not_negative(
        spec_distance_squared(q.start, q.control),
        spec_distance_squared(q.control, q.end),
    );
    lemma_segments_at_least_three(q.spec_length_squared());
    assert forall|i: int| 0 <= i <= n implies in_box(
        #[trigger] q.samples()(i),
        q.spec_low_corner(),
        q.spec_high_corner(),
    ) by {
        lemma_quadratic_mix_between(q.start.x as int, q.control.x as int, q.end.x as int, i, n);
        lemma_quadratic_mix_between(q.start.y as int, q.control.y as int, q.end.y as int, i, n);
    }
    lemma_polyline_in_box(q.samples(), n, q.spec_low_corner(), q.spec_high_corner(), p);
}

/// One single change of a quadratic curve: the point that moves, with the
/// noise along `x` and along `y` that was drawn for it.
#[derive(Debug, Copy, Clone, PartialEq, Eq, Structural)]
pub enum QuadraticChange {
    Start(i32, i32),
    End(i32, i32),
    Control(i32, i32),
}

/// A quadratic Bezier curve of one colour.
#[derive(Debug, Copy, Clone, PartialEq, Eq)]
pub struct QuadraticBezier {
    pub color: Color,
    pub start: PrimitivePoint,
    pub control: PrimitivePoint,
    pub end: PrimitivePoint,
}

impl QuadraticBezier {
    /// The curve with the given points, in black at the fitted alpha.
    pub fn new(start: PrimitivePoint, end: PrimitivePoint, control: PrimitivePoint) -> (q:
        QuadraticBezier)
        ensures
            q == (QuadraticBezier { color: Color { r: 0, g: 0, b: 0, a: 128 }, start, control, end }),
    {
        QuadraticBezier { color: Color { r: 0, g: 0, b: 0, a: 128 }, start, end, control }
    }

    /// A curve is valid when its ends lie farther from each other than the
    /// control point lies from either: such a curve does not fold back.
    pub open spec fn spec_is_valid(&self) -> bool {
        spec_distance_squared(self.start, self.end) > spec_distance_squared(self.start, self.control)
            && spec_distance_squared(self.start, self.end) > spec_distance_squared(
            self.control,
            self.end,
        )
    }

    pub fn is_valid(&self) -> (valid: bool)
        ensures
            valid == self.spec_is_valid(),
    {
        let d12: u128 = distance_squared(self.start, self.control);
        let d23: u128 = distance_squared(self.control, self.end);
        let d13: u128 = distance_squared(self.start, self.end);
        d13 > d12 && d13 > d23
    }

    /// The square of the sum of the two control chords, the estimate of the
    /// curve's length, rounded down: with `A` and `B` the squares of the
    /// chords it is `A + B + 2 sqrt(A B)`.
    pub open spec fn spec_length_squared(&self) -> int {
        spec_distance_squared(self.start, self.control) + spec_distance_squared(
            self.control,
            self.end,
        ) + spec_cross_root(
            spec_distance_squared(self.start, self.control),
            spec_distance_squared(self.control, self.end),
        )
    }

    /// The number of straight pieces in which the curve is walked.
    pub open spec fn spec_pieces(&self) -> int {
        spec_segments(self.spec_length_squared())
    }

    /// The point of the curve at the parameter `i / n`, rounded to the
    /// nearest pixel.
    pub open spec fn spec_sample(&self, i: int, n: int) -> PrimitivePoint {
        spec_quadratic_point(self.start, self.control, self.end, i, n)
    }

    pub fn sample(&self, i: u64, n: u64) -> (p: PrimitivePoint)
        requires
            0 < n < SEGMENT_LIMIT,
            i <= n,
        ensures
            p == self.spec_sample(i as int, n as int),
    {
        PrimitivePoint {
            x: quadratic_mix(self.start.x, self.control.x, self.end.x, i, n),
            y: quadratic_mix(self.start.y, self.control.y, self.end.y, i, n),
        }
    }

    /// The samples between which the curve is walked.
    pub open spec fn samples(&self) -> spec_fn(int) -> PrimitivePoint {
        quadratic_samples(self.start, self.control, self.end, self.spec_pieces())
    }

    /// The covered pixels: the straight walks between consecutive samples of
    /// the curve, from its start to its end.
    pub open spec fn spec_pixels(&self) -> Seq<PrimitivePoint> {
        spec_polyline(self.samples(), self.spec_pieces())
    }

    pub fn get_pixels(&self) -> (pixels: Vec<PrimitivePoint>)
        ensures
            pixels@ == self.spec_pixels(),
    {
        let first: u128 = distance_squared(self.start, self.control);
        let second: u128 = distance_squared(self.control, self.end);
        let pieces: u64 = segments(first + second + cross_root(first, second)) as u64;
        let ghost samples = self.samples();
        let mut pixels: Vec<PrimitivePoint> = Vec::new();
        let mut previous = self.sample(0, pieces);
        let mut i: u64 = 0;
        while i < pieces
            invariant
                i <= pieces,
                0 < pieces < SEGMENT_LIMIT,
                pieces == self.spec_pieces(),
                samples == self.samples(),
                previous == samples(i as int),
                pixels@ == spec_polyline(samples, i as int),
            decreases pieces - i,
        {
            let next = self.sample(i + 1, pieces);
            append_line(&mut pixels, previous, next);
            previous = next;
            i += 1;
        }
        pixels
    }

    /// The corner of least coordinates of the smallest upright box around
    /// the three points.
    pub open spec fn spec_low_corner(&self) -> PrimitivePoint {
        PrimitivePoint {
            x: spec_min3(self.start.x as int, self.control.x as int, self.end.x as int) as i32,
            y: spec_min3(self.start.y as int, self.control.y as int, self.end.y as int) as i32,
        }
    }

    /// The corner of greatest coordinates of the smallest upright box around
    /// the three points.
    pub open spec fn spec_high_corner(&self) -> PrimitivePoint {
        PrimitivePoint {
            x: spec_max3(self.start.x as int, self.control.x as int, self.end.x as int) as i32,
            y: spec_max3(self.start.y as int, self.control.y as int, self.end.y as int) as i32,
        }
    }

    /// The corners of the smallest upright box around the three points:
    /// first the one of least coordinates, then the one of greatest. The
    /// curve does not leave this box.
    pub fn bounding_box(&self) -> (corners: [PrimitivePoint; 2])
        ensures
            corners[0] == self.spec_low_corner(),
            corners[1] == self.spec_high_corner(),
    {
        [
            PrimitivePoint::new(
                min3(self.start.x, self.control.x, self.end.x),
                min3(self.start.y, self.control.y, self.end.y),
            ),
            PrimitivePoint::new(
                max3(self.start.x, self.control.x, self.end.x),
                max3(self.start.y, self.control.y, self.end.y),
            ),
        ]
    }

    /// This curve painted over `image`.
    pub fn paint_on(&self, image: &Canvas) -> (out: Canvas)
        ensures
            out.same_size(image),
            out@ == painted(
                image@,
                image.spec_width() as int,
                image.spec_height() as int,
                self.spec_pixels(),
                self.color,
            ),
    {
        let pixels = self.get_pixels();
        image.paint(&pixels, self.color)
    }

    /// This curve with every length multiplied by `factor`.
    pub open spec fn spec_scaled(&self, factor: Ratio) -> QuadraticBezier {
        QuadraticBezier {
            start: factor.spec_scale_point(self.start),
            control: factor.spec_scale_point(self.control),
            end: factor.spec_scale_point(self.end),
            ..*self
        }
    }

    pub fn scaled(&self, factor: &Ratio) -> (s: QuadraticBezier)
        requires
            factor.wf(),
        ensures
            s == self.spec_scaled(*factor),
    {
        QuadraticBezier {
            start: factor.scale_point(self.start),
            control: factor.scale_point(self.control),
            end: factor.scale_point(self.end),
            ..*self
        }
    }

    /// This curve, scaled by `factor`, painted over `image`.
    pub fn scaled_paint_on(&self, image: &Canvas, factor: &Ratio) -> (out: Canvas)
        requires
            factor.wf(),
        ensures
            out.same_size(image),
            out@ == painted(
                image@,
                image.spec_width() as int,
                image.spec_height() as int,
                self.spec_scaled(*factor).spec_pixels(),
                self.color,
            ),
    {
        self.scaled(factor).paint_on(image)
    }

    /// Gives the curve the mean colour that the session's target has under
    /// it.
    pub fn set_color_using(&mut self, image: &PrimitiveImage)
        ensures
            *final(self) == (QuadraticBezier {
                color: mean_color(
                    colors_at(
                        image.spec_target()@,
                        image.spec_target().spec_width() as int,
                        image.spec_target().spec_height() as int,
                        old(self).spec_pixels(),
                    ),
                ),
                ..*old(self)
            }),
    {
        let pixels = self.get_pixels();
        self.color = image.target().average_color_at(&pixels);
    }

    /// The curve after `change` on a `width` by `height` canvas: one point
    /// moved as a point is, the other two as they were.
    pub open spec fn spec_changed(self, change: QuadraticChange, width: int, height: int) -> QuadraticBezier {
        match change {
            QuadraticChange::Start(dx, dy) => QuadraticBezier {
                start: self.start.spec_displaced(dx as int, dy as int, width, height),
                ..self
            },
            QuadraticChange::End(dx, dy) => QuadraticBezier {
                end: self.end.spec_displaced(dx as int, dy as int, width, height),
                ..self
            },
            QuadraticChange::Control(dx, dy) => QuadraticBezier {
                control: self.control.spec_displaced(dx as int, dy as int, width, height),
                ..self
            },
        }
    }

    pub fn changed(self, change: QuadraticChange, width: u32, height: u32) -> (q: QuadraticBezier)
        ensures
            q == self.spec_changed(change, width as int, height as int),
    {
        match change {
            QuadraticChange::Start(dx, dy) => QuadraticBezier {
                start: self.start.displaced(dx, dy, width, height),
                ..self
            },
            QuadraticChange::End(dx, dy) => QuadraticBezier {
                end: self.end.displaced(dx, dy, width, height),
                ..self
            },
            QuadraticChange::Control(dx, dy) => QuadraticBezier {
                control: self.control.displaced(dx, dy, width, height),
                ..self
            },
        }
    }

    /// What one change on a `width` by `height` canvas can make of `before`:
    /// `before` after some change.
    pub open spec fn spec_mutation_of(&self, before: QuadraticBezier, width: int, height: int) -> bool {
        exists|change: QuadraticChange| *self == #[trigger] before.spec_changed(change, width, height)
    }

    /// Whether `self` comes from `before` by `failures` single changes on a
    /// `width` by `height` canvas, one after the other, of which none gave a
    /// valid shape.
    pub open spec fn spec_failed_from(
        &self,
        before: QuadraticBezier,
        width: int,
        height: int,
        failures: nat,
    ) -> bool
        decreases failures,
    {
        if failures == 0 {
            *self == before
        } else {
            exists|mid: QuadraticBezier|
                mid.spec_failed_from(before, width, height, (failures - 1) as nat)
                    && #[trigger] self.spec_mutation_of(mid, width, height) && !self.spec_is_valid()
        }
    }

    /// Whether `self` is what a mutation on a `width` by `height` canvas can
    /// make of `before`: one more single change after a run of changes that
    /// all failed, the run no longer than the attempts allow. A mutation
    /// returns the first valid shape that its changes give.
    pub open spec fn spec_mutated_from(&self, before: QuadraticBezier, width: int, height: int) -> bool {
        exists|mid: QuadraticBezier, failures: nat|
            failures <= MAXIMUM_MUTATION_ATTEMPTS && #[trigger] mid.spec_failed_from(
                before,
                width,
                height,
                failures,
            ) && self.spec_mutation_of(mid, width, height)
    }

    /// Whether a mutation of `self` on a `width` by `height` canvas can give
    /// up: there is a run of single changes from it that all failed and that
    /// is one longer than `MAXIMUM_MUTATION_ATTEMPTS`.
    pub open spec fn spec_exhausted(&self, width: int, height: int) -> bool {
        exists|last: QuadraticBezier|
            #[trigger] last.spec_failed_from(
                *self,
                width,
                height,
                (MAXIMUM_MUTATION_ATTEMPTS + 1) as nat,
            )
    }

    /// Draws one change: which point by a draw from `rng`, then two draws of
    /// `noise`, the first for `x` and the second for `y`.
    pub fn draw_change<N: Fn(&mut StdRng) -> i32>(rng: &mut StdRng, noise: &N) -> (change:
        QuadraticChange)
        requires
            forall|g: &mut StdRng| call_requires(noise, (g,)),
    {
        let which: i32 = uniform_i32(rng, 0, 3);
        let dx: i32 = noise(rng);
        let dy: i32 = noise(rng);
        if which == 0 {
            QuadraticChange::Start(dx, dy)
        } else if which == 1 {
            QuadraticChange::End(dx, dy)
        } else {
            QuadraticChange::Control(dx, dy)
        }
    }

    /// Moves one point at a time, each change on top of the last, until the
    /// curve is valid. Gives up, leaving the curve as it was, when the
    /// attempt after `MAXIMUM_MUTATION_ATTEMPTS` failures fails too.
    pub fn mutate<N: Fn(&mut StdRng) -> i32>(
        &mut self,
        width: u32,
        height: u32,
        rng: &mut StdRng,
        noise: &N,
    ) -> (res: Result<(), ShapeError>)
        requires
            forall|g: &mut StdRng| call_requires(noise, (g,)),
        ensures
            final(self).color == old(self).color,
            res is Ok ==> final(self).spec_is_valid(),
            res is Ok ==> final(self).spec_mutated_from(*old(self), width as int, height as int),
            res is Err ==> *final(self) == *old(self),
            res is Err ==> old(self).spec_exhausted(width as int, height as int),
    {
        let mut candidate = *self;
        let mut failures: u32 = 0;
        loop
            invariant
                failures <= MAXIMUM_MUTATION_ATTEMPTS,
                forall|g: &mut StdRng| call_requires(noise, (g,)),
                candidate.color == self.color,
                *self == *old(self),
                candidate.spec_failed_from(*self, width as int, height as int, failures as nat),
            decreases MAXIMUM_MUTATION_ATTEMPTS - failures,
        {
            let change = Self::draw_change(rng, noise);
            let next = candidate.changed(change, width, height);
            assert(next.spec_mutation_of(candidate, width as int, height as int));
            match after_change(next.is_valid(), failures) {
                Retry::Done => {
                    *self = next;
                    return Ok(());
                },
                Retry::GiveUp => {
                    assert(next.spec_failed_from(
                        *self,
                        width as int,
                        height as int,
                        (failures + 1) as nat,
                    ));
                    return Err(ShapeError::GenerationExhausted);
                },
                Retry::Again => {
                    candidate = next;
                    failures += 1;
                },
            }
        }
    }

    /// Whether the curve is one that generation starts from: black at the
    /// fitted alpha, its start on the canvas and its other points within
    /// `border_extension` of the start.
    pub open spec fn spec_fresh(&self, width: int, height: int, border_extension: int) -> bool {
        &&& self.color == (Color { r: 0, g: 0, b: 0, a: 128 })
        &&& self.start.spec_on_canvas(width, height)
        &&& self.control.spec_in_radius(self.start, border_extension)
        &&& self.end.spec_in_radius(self.start, border_extension)
    }

    /// A random valid curve: a start drawn from the canvas, a control point
    /// and an end drawn within `border_extension` of it, and then one
    /// mutation.
    pub fn random<N: Fn(&mut StdRng) -> i32>(
        width: u32,
        height: u32,
        border_extension: i32,
        rng: &mut StdRng,
        noise: &N,
    ) -> (res: Result<QuadraticBezier, ShapeError>)
        requires
            0 < width,
            0 < height,
            1 <= border_extension,
            width + border_extension <= i32::MAX,
            height + border_extension <= i32::MAX,
            forall|g: &mut StdRng| call_requires(noise, (g,)),
        ensures
            res is Ok ==> exists|fresh: QuadraticBezier|
                fresh.spec_fresh(width as int, height as int, border_extension as int)
                    && #[trigger] (res->Ok_0).spec_mutated_from(
                    fresh,
                    width as int,
                    height as int,
                ),
            res is Err ==> exists|fresh: QuadraticBezier|
                fresh.spec_fresh(width as int, height as int, border_extension as int)
                    && #[trigger] fresh.spec_exhausted(
                    width as int,
                    height as int,
                ),
            res matches Ok(q) ==> q.spec_is_valid() && q.color == (Color { r: 0, g: 0, b: 0, a: 128 }),
    {
        let start = PrimitivePoint::random_point(width, height, rng);
        let control = start.random_point_in_radius(border_extension, rng);
        let end = start.random_point_in_radius(border_extension, rng);
        let mut bezier = QuadraticBezier::new(start, end, control);
        let ghost fresh = bezier;
        match bezier.mutate(width, height, rng, noise) {
            Ok(()) => {
                proof {
                    let out: Result<QuadraticBezier, ShapeError> = Ok(bezier);
                    assert(fresh.spec_fresh(width as int, height as int, border_extension as int)
                        && (out->Ok_0).spec_mutated_from(
                        fresh,
                        width as int,
                        height as int,
                    ));
                }
                Ok(bezier)
            },
            Err(e) => {
                proof {
                    assert(fresh.spec_fresh(width as int, height as int, border_extension as int)
                        && fresh.spec_exhausted(
                        width as int,
                        height as int,
                    ));
                }
                Err(e)
            },
        }
    }
}

} // verus!
