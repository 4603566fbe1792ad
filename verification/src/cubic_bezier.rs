use crate::canvas::Canvas;
use crate::canvas::Color;
use crate::canvas::colors_at;
use crate::canvas::mean_color;
use crate::canvas::painted;
use crate::curve::SEGMENT_LIMIT;
use crate::curve::cross_root;
use crate::curve::distance_squared;
use crate::curve::lemma_cross_root_not_negative;
use crate::curve::lemma_distance_not_negative;
use crate::curve::lemma_polyline_in_box;
use crate::curve::lemma_rounded_between;
use crate::curve::lemma_rounded_multiple;
use crate::curve::lemma_segments_at_least_three;
use crate::curve::lemma_weight_bounds;
use crate::curve::lemma_weighted_between;
use crate::curve::rounded_quotient;
use crate::curve::rounding_div;
use crate::curve::segments;
use crate::curve::spec_cross_root;
use crate::curve::spec_distance_squared;
use crate::curve::spec_polyline;
use crate::curve::spec_segments;
use crate::curve::weigh;
use crate::line::append_line;
use crate::line::in_box;
use crate::point::PrimitivePoint;
use crate::point::spec_max3;
use crate::point::spec_min3;
use crate::primitive_image::PrimitiveImage;
use crate::random::uniform_i32;
use crate::scale::Ratio;
use rand::rngs::StdRng;
use vstd::prelude::*;

verus! {

/// One coordinate of the cubic curve through `x0`, `x1`, `x2`, `x3` at the
/// parameter `i / n`: the Bernstein weights `(n - i)^3`, `3 (n - i)^2 i`,
/// `3 (n - i) i^2` and `i^3` over `n^3`, rounded to the nearest pixel.
pub open spec fn spec_cubic_mix(x0: int, x1: int, x2: int, x3: int, i: int, n: int) -> int {
    rounded_quotient(
        x0 * ((n - i) * (n - i) * (n - i)) + x1 * (3 * ((n - i) * (n - i) * i)) + x2 * (3 * ((n - i)
            * i * i)) + x3 * (i * i * i),
        n * n * n,
    )
}

/// The least of four coordinates.
pub open spec fn spec_min4(a: int, b: int, c: int, d: int) -> int {
    if spec_min3(a, b, c) <= d { spec_min3(a, b, c) } else { d }
}

/// The greatest of four coordinates.
pub open spec fn spec_max4(a: int, b: int, c: int, d: int) -> int {
    if spec_max3(a, b, c) >= d { spec_max3(a, b, c) } else { d }
}

/// A coordinate of a cubic curve lies between the least and the greatest of
/// the four coordinates that it is mixed from.
pub proof fn lemma_cubic_mix_between(x0: int, x1: int, x2: int, x3: int, i: int, n: int)
    requires
        0 <= i <= n,
        0 < n,
    ensures
        spec_min4(x0, x1, x2, x3) <= spec_cubic_mix(x0, x1, x2, x3, i, n) <= spec_max4(
            x0,
            x1,
            x2,
            x3,
        ),
{
    let low = spec_min4(x0, x1, x2, x3);
    let high = spec_max4(x0, x1, x2, x3);
    let back = n - i;
    let w0 = back * back * back;
    let w1 = 3 * (back * back * i);
    let w2 = 3 * (back * i * i);
    let w3 = i * i * i;
    lemma_cubic_weights(back, i, n);
    assert(w0 >= 0 && w1 >= 0 && w2 >= 0 && w3 >= 0) by (nonlinear_arith)
        requires
            back >= 0,
            i >= 0,
            w0 == back * back * back,
            w1 == 3 * (back * back * i),
            w2 == 3 * (back * i * i),
            w3 == i * i * i,
    ;
    lemma_weighted_between(x0, w0, low, high);
    lemma_weighted_between(x1, w1, low, high);
    lemma_weighted_between(x2, w2, low, high);
    lemma_weighted_between(x3, w3, low, high);
    let whole = n * n * n;
    assert(low * w0 + low * w1 + low * w2 + low * w3 == low * whole) by (nonlinear_arith)
        requires
            w0 + w1 + w2 + w3 == whole,
    ;
    assert(high * w0 + high * w1 + high * w2 + high * w3 == high * whole) by (nonlinear_arith)
        requires
            w0 + w1 + w2 + w3 == whole,
    ;
    lemma_rounded_between(x0 * w0 + x1 * w1 + x2 * w2 + x3 * w3, whole, low, high);
}

fn cubic_mix(x0: i32, x1: i32, x2: i32, x3: i32, i: u64, n: u64) -> (r: i32)
    requires
        0 < n < SEGMENT_LIMIT,
        i <= n,
    ensures
        r == spec_cubic_mix(x0 as int, x1 as int, x2 as int, x3 as int, i as int, n as int),
{
    let back: i128 = (n - i) as i128;
    let forth: i128 = i as i128;
    let whole: i128 = n as i128;
    proof {
        lemma_weight_bounds(back as int, back as int, back as int);
        lemma_weight_bounds(back as int, back as int, forth as int);
        lemma_weight_bounds(back as int, forth as int, forth as int);
        lemma_weight_bounds(forth as int, forth as int, forth as int);
        lemma_weight_bounds(whole as int, whole as int, whole as int);
        lemma_cubic_weights(back as int, forth as int, whole as int);
    }
    let w0: i128 = back * back * back;
    let w1: i128 = 3 * (back * back * forth);
    let w2: i128 = 3 * (back * forth * forth);
    let w3: i128 = forth * forth * forth;
    let total: i128 = weigh(x0, w0) + weigh(x1, w1) + weigh(x2, w2) + weigh(x3, w3);
    proof {
        lemma_cubic_mix_between(x0 as int, x1 as int, x2 as int, x3 as int, i as int, n as int);
    }
    rounding_div(total, whole * whole * whole) as i32
}

/// The four cubic Bernstein weights add up to the cube of the whole.
proof fn lemma_cubic_weights(back: int, forth: int, whole: int)
    requires
        back + forth == whole,
        whole > 0,
    ensures
        back * back * back + 3 * (back * back * forth) + 3 * (back * forth * forth) + forth * forth
            * forth == whole * whole * whole,
        whole * whole * whole > 0,
{
    assert(back * back * back + 3 * (back * back * forth) + 3 * (back * forth * forth) + forth
        * forth * forth == (back + forth) * (back + forth) * (back + forth)) by (nonlinear_arith);
    assert(whole * whole * whole > 0) by (nonlinear_arith)
        requires
            whole > 0,
    ;
}

/// The point at the parameter `i / n` of the cubic curve from `start` by
/// `control1` and `control2` to `end`, rounded to the nearest pixel.
pub open spec fn spec_cubic_point(
    start: PrimitivePoint,
    control1: PrimitivePoint,
    control2: PrimitivePoint,
    end: PrimitivePoint,
    i: int,
    n: int,
) -> PrimitivePoint {
    PrimitivePoint {
        x: spec_cubic_mix(
            start.x as int,
            control1.x as int,
            control2.x as int,
            end.x as int,
            i,
            n,
        ) as i32,
        y: spec_cubic_mix(
            start.y as int,
            control1.y as int,
            control2.y as int,
            end.y as int,
            i,
            n,
        ) as i32,
    }
}

/// The samples of the cubic curve at the parameters `0 / n`, `1 / n` and so
/// on.
pub open spec fn cubic_samples(
    start: PrimitivePoint,
    control1: PrimitivePoint,
    control2: PrimitivePoint,
    end: PrimitivePoint,
    n: int,
) -> spec_fn(int) -> PrimitivePoint {
    |i: int| spec_cubic_point(start, control1, control2, end, i, n)
}

/// The samples of a cubic curve begin at its start and end at its end.
pub proof fn lemma_cubic_ends(
    start: PrimitivePoint,
    control1: PrimitivePoint,
    control2: PrimitivePoint,
    end: PrimitivePoint,
    n: int,
)
    requires
        n > 0,
    ensures
        spec_cubic_point(start, control1, control2, end, 0, n) == start,
        spec_cubic_point(start, control1, control2, end, n, n) == end,
{
    assert(n * n * n > 0) by (nonlinear_arith)
        requires
            n > 0,
    ;
    lemma_cubic_end_weights(start.x as int, control1.x as int, control2.x as int, end.x as int, n);
    lemma_cubic_end_weights(start.y as int, control1.y as int, control2.y as int, end.y as int, n);
    lemma_rounded_multiple(start.x as int, n * n * n);
    lemma_rounded_multiple(start.y as int, n * n * n);
    lemma_rounded_multiple(end.x as int, n * n * n);
    lemma_rounded_multiple(end.y as int, n * n * n);
}

proof fn lemma_cubic_end_weights(x0: int, x1: int, x2: int, x3: int, n: int)
    ensures
        x0 * ((n - 0) * (n - 0) * (n - 0)) + x1 * (3 * ((n - 0) * (n - 0) * 0)) + x2 * (3 * ((n - 0)
            * 0 * 0)) + x3 * (0 * 0 * 0) == x0 * (n * n * n),
        x0 * ((n - n) * (n - n) * (n - n)) + x1 * (3 * ((n - n) * (n - n) * n)) + x2 * (3 * ((n - n)
            * n * n)) + x3 * (n * n * n) == x3 * (n * n * n),
{
    assert(x0 * ((n - 0) * (n - 0) * (n - 0)) + x1 * (3 * ((n - 0) * (n - 0) * 0)) + x2 * (3 * ((n
        - 0) * 0 * 0)) + x3 * (0 * 0 * 0) == x0 * (n * n * n)) by (nonlinear_arith);
    assert(x0 * ((n - n) * (n - n) * (n - n)) + x1 * (3 * ((n - n) * (n - n) * n)) + x2 * (3 * ((n
        - n) * n * n)) + x3 * (n * n * n) == x3 * (n * n * n)) by (nonlinear_arith);
}

/// Every pixel of a cubic curve lies in the smallest upright box around its
/// four points.
pub proof fn lemma_cubic_pixels_in_box(c: CubicBezier, p: PrimitivePoint)
    requires
        c.spec_pixels().contains(p),
    ensures
        in_box(p, c.spec_low_corner(), c.spec_high_corner()),
{
    let n = c.spec_pieces();
    let first = spec_distance_squared(c.start, c.control1);
    let second = spec_distance_squared(c.control1, c.control2);
    let third = spec_distance_squared(c.control2, c.end);
    lemma_distance_not_negative(c.start, c.control1);
    lemma_distance_not_negative(c.control1, c.control2);
    lemma_distance_not_negative(c.control2, c.end);
    lemma_cross_root_not_negative(first, second);
    lemma_cross_root_not_negative(first, third);
    lemma_cross_root_not_negative(second, third);
    lemma_segments_at_least_three(c.spec_length_squared());
    assert forall|i: int| 0 <= i <= n implies in_box(
        #[trigger] c.samples()(i),
        c.spec_low_corner(),
        c.spec_high_corner(),
    ) by {
        lemma_cubic_mix_between(
            c.start.x as int,
            c.control1.x as int,
            c.control2.x as int,
            c.end.x as int,
            i,
            n,
        );
        lemma_cubic_mix_between(
            c.start.y as int,
            c.control1.y as int,
            c.control2.y as int,
            c.end.y as int,
            i,
            n,
        );
    }
    lemma_polyline_in_box(c.samples(), n, c.spec_low_corner(), c.spec_high_corner(), p);
}

/// One single change of a cubic curve: the point that moves, with the noise
/// along `x` and along `y` that was drawn for it.
#[derive(Debug, Copy, Clone, PartialEq, Eq, Structural)]
pub enum CubicChange {
    Start(i32, i32),
    End(i32, i32),
    Control1(i32, i32),
    Control2(i32, i32),
}

/// A cubic Bezier curve of one colour.
#[derive(Debug, Copy, Clone, PartialEq, Eq)]
pub struct CubicBezier {
    pub color: Color,
    pub start: PrimitivePoint,
    pub control1: PrimitivePoint,
    pub control2: PrimitivePoint,
    pub end: PrimitivePoint,
}

impl CubicBezier {
    /// The curve with the given points, in black at the fitted alpha.
    pub fn new(
        start: PrimitivePoint,
        end: PrimitivePoint,
        control1: PrimitivePoint,
        control2: PrimitivePoint,
    ) -> (c: CubicBezier)
        ensures
            c == (CubicBezier {
                color: Color { r: 0, g: 0, b: 0, a: 128 },
                start,
                control1,
                control2,
                end,
            }),
    {
        CubicBezier { color: Color { r: 0, g: 0, b: 0, a: 128 }, start, end, control1, control2 }
    }

    /// The corner of least coordinates of the smallest upright box around
    /// the four points.
    pub open spec fn spec_low_corner(&self) -> PrimitivePoint {
        PrimitivePoint {
            x: spec_min4(
                self.start.x as int,
                self.control1.x as int,
                self.control2.x as int,
                self.end.x as int,
            ) as i32,
            y: spec_min4(
                self.start.y as int,
                self.control1.y as int,
                self.control2.y as int,
                self.end.y as int,
            ) as i32,
        }
    }

    /// The corner of greatest coordinates of the smallest upright box around
    /// the four points.
    pub open spec fn spec_high_corner(&self) -> PrimitivePoint {
        PrimitivePoint {
            x: spec_max4(
                self.start.x as int,
                self.control1.x as int,
                self.control2.x as int,
                self.end.x as int,
            ) as i32,
            y: spec_max4(
                self.start.y as int,
                self.control1.y as int,
                self.control2.y as int,
                self.end.y as int,
            ) as i32,
        }
    }

    /// Every cubic curve is valid.
    pub open spec fn spec_is_valid(&self) -> bool {
        true
    }

    pub fn is_valid(&self) -> (valid: bool)
        ensures
            valid == self.spec_is_valid(),
    {
        true
    }

    /// The square of the sum of the three control chords, the estimate of
    /// the curve's length: with `A`, `B` and `C` the squares of the chords it
    /// is `A + B + C + 2 sqrt(A B) + 2 sqrt(A C) + 2 sqrt(B C)`, each of the
    /// three roots rounded down, which leaves it less than three below the
    /// square itself.
    pub open spec fn spec_length_squared(&self) -> int {
        let a = spec_distance_squared(self.start, self.control1);
        let b = spec_distance_squared(self.control1, self.control2);
        let c = spec_distance_squared(self.control2, self.end);
        a + b + c + spec_cross_root(a, b) + spec_cross_root(a, c) + spec_cross_root(b, c)
    }

    /// The number of straight pieces in which the curve is walked.
    pub open spec fn spec_pieces(&self) -> int {
        spec_segments(self.spec_length_squared())
    }

    /// The point of the curve at the parameter `i / n`, rounded to the
    /// nearest pixel.
    pub open spec fn spec_sample(&self, i: int, n: int) -> PrimitivePoint {
        spec_cubic_point(self.start, self.control1, self.control2, self.end, i, n)
    }

    pub fn sample(&self, i: u64, n: u64) -> (p: PrimitivePoint)
        requires
            0 < n < SEGMENT_LIMIT,
            i <= n,
        ensures
            p == self.spec_sample(i as int, n as int),
    {
        PrimitivePoint {
            x: cubic_mix(self.start.x, self.control1.x, self.control2.x, self.end.x, i, n),
            y: cubic_mix(self.start.y, self.control1.y, self.control2.y, self.end.y, i, n),
        }
    }

    /// The samples between which the curve is walked.
    pub open spec fn samples(&self) -> spec_fn(int) -> PrimitivePoint {
        cubic_samples(self.start, self.control1, self.control2, self.end, self.spec_pieces())
    }

    /// The covered pixels: the straight walks between consecutive samples of
    /// the curve, from its start to its end.
    pub open spec fn spec_pixels(&self) -> Seq<PrimitivePoint> {
        spec_polyline(self.samples(), self.spec_pieces())
    }

    pub fn get_pixels(&self) -> (pixels: Vec<PrimitivePoint>)
        ensures
            pixels@ == self.spec_pixels(),
    {
        let a: u128 = distance_squared(self.start, self.control1);
        let b: u128 = distance_squared(self.control1, self.control2);
        let c: u128 = distance_squared(self.control2, self.end);
        let square: u128 = a + b + c + cross_root(a, b) + cross_root(a, c) + cross_root(b, c);
        let pieces: u64 = segments(square) as u64;
        let ghost samples = self.samples();
        let mut pixels: Vec<PrimitivePoint> = Vec::new();
        let mut previous = self.sample(0, pieces);
        let mut i: u64 = 0;
        while i < pieces
            invariant
                i <= pieces,
                0 < pieces < SEGMENT_LIMIT,
                pieces == self.spec_pieces(),
                samples == self.samples(),
                previous == samples(i as int),
                pixels@ == spec_polyline(samples, i as int),
            decreases pieces - i,
        {
            let next = self.sample(i + 1, pieces);
            append_line(&mut pixels, previous, next);
            previous = next;
            i += 1;
        }
        pixels
    }

    /// This curve painted over `image`.
    pub fn paint_on(&self, image: &Canvas) -> (out: Canvas)
        ensures
            out.same_size(image),
            out@ == painted(
                image@,
                image.spec_width() as int,
                image.spec_height() as int,
                self.spec_pixels(),
                self.color,
            ),
    {
        let pixels = self.get_pixels();
        image.paint(&pixels, self.color)
    }

    /// This curve with every length multiplied by `factor`.
    pub open spec fn spec_scaled(&self, factor: Ratio) -> CubicBezier {
        CubicBezier {
            start: factor.spec_scale_point(self.start),
            control1: factor.spec_scale_point(self.control1),
            control2: factor.spec_scale_point(self.control2),
            end: factor.spec_scale_point(self.end),
            ..*self
        }
    }

    pub fn scaled(&self, factor: &Ratio) -> (s: CubicBezier)
        requires
            factor.wf(),
        ensures
            s == self.spec_scaled(*factor),
    {
        CubicBezier {
            start: factor.scale_point(self.start),
            control1: factor.scale_point(self.control1),
            control2: factor.scale_point(self.control2),
            end: factor.scale_point(self.end),
            ..*self
        }
    }

    /// This curve, scaled by `factor`, painted over `image`.
    pub fn scaled_paint_on(&self, image: &Canvas, factor: &Ratio) -> (out: Canvas)
        requires
            factor.wf(),
        ensures
            out.same_size(image),
            out@ == painted(
                image@,
                image.spec_width() as int,
                image.spec_height() as int,
                self.spec_scaled(*factor).spec_pixels(),
                self.color,
            ),
    {
        self.scaled(factor).paint_on(image)
    }

    /// Gives the curve the mean colour that the session's target has under
    /// it.
    pub fn set_color_using(&mut self, image: &PrimitiveImage)
        ensures
            *final(self) == (CubicBezier {
                color: mean_color(
                    colors_at(
                        image.spec_target()@,
                        image.spec_target().spec_width() as int,
                        image.spec_target().spec_height() as int,
                        old(self).spec_pixels(),
                    ),
                ),
                ..*old(self)
            }),
    {
        let pixels = self.get_pixels();
        self.color = image.target().average_color_at(&pixels);
    }

    /// The curve after `change` on a `width` by `height` canvas: one point
    /// moved as a point is, the other three as they were.
    pub open spec fn spec_changed(self, change: CubicChange, width: int, height: int) -> CubicBezier {
        match change {
            CubicChange::Start(dx, dy) => CubicBezier {
                start: self.start.spec_displaced(dx as int, dy as int, width, height),
                ..self
            },
            CubicChange::End(dx, dy) => CubicBezier {
                end: self.end.spec_displaced(dx as int, dy as int, width, height),
                ..self
            },
            CubicChange::Control1(dx, dy) => CubicBezier {
                control1: self.control1.spec_displaced(dx as int, dy as int, width, height),
                ..self
            },
            CubicChange::Control2(dx, dy) => CubicBezier {
                control2: self.control2.spec_displaced(dx as int, dy as int, width, height),
                ..self
            },
        }
    }

    pub fn changed(self, change: CubicChange, width: u32, height: u32) -> (c: CubicBezier)
        ensures
            c == self.spec_changed(change, width as int, height as int),
    {
        match change {
            CubicChange::Start(dx, dy) => CubicBezier {
                start: self.start.displaced(dx, dy, width, height),
                ..self
            },
            CubicChange::End(dx, dy) => CubicBezier {
                end: self.end.displaced(dx, dy, width, height),
                ..self
            },
            CubicChange::Control1(dx, dy) => CubicBezier {
                control1: self.control1.displaced(dx, dy, width, height),
                ..self
            },
            CubicChange::Control2(dx, dy) => CubicBezier {
                control2: self.control2.displaced(dx, dy, width, height),
                ..self
            },
        }
    }

    /// What one mutation on a `width` by `height` canvas can make of
    /// `before`: `before` after some change.
    pub open spec fn spec_mutation_of(&self, before: CubicBezier, width: int, height: int) -> bool {
        exists|change: CubicChange| *self == #[trigger] before.spec_changed(change, width, height)
    }

    /// Draws one change: which point by a draw from `rng`, then two draws of
    /// `noise`, the first for `x` and the second for `y`.
    pub fn draw_change<N: Fn(&mut StdRng) -> i32>(rng: &mut StdRng, noise: &N) -> (change:
        CubicChange)
        requires
            forall|g: &mut StdRng| call_requires(noise, (g,)),
    {
        let which: i32 = uniform_i32(rng, 0, 4);
        let dx: i32 = noise(rng);
        let dy: i32 = noise(rng);
        if which == 0 {
            CubicChange::Start(dx, dy)
        } else if which == 1 {
            CubicChange::End(dx, dy)
        } else if which == 2 {
            CubicChange::Control1(dx, dy)
        } else {
            CubicChange::Control2(dx, dy)
        }
    }

    /// Makes one change, drawn from `rng` and `noise`. Every cubic curve is
    /// valid, so the first change stands.
    pub fn mutate<N: Fn(&mut StdRng) -> i32>(
        &mut self,
        width: u32,
        height: u32,
        rng: &mut StdRng,
        noise: &N,
    )
        requires
            forall|g: &mut StdRng| call_requires(noise, (g,)),
        ensures
            final(self).spec_mutation_of(*old(self), width as int, height as int),
            final(self).spec_is_valid(),
            final(self).color == old(self).color,
    {
        let change = Self::draw_change(rng, noise);
        *self = self.changed(change, width, height);
    }

    /// Whether the curve is one that generation starts from: black at the
    /// fitted alpha, its start on the canvas and its other points within
    /// `border_extension` of the start.
    pub open spec fn spec_fresh(&self, width: int, height: int, border_extension: int) -> bool {
        &&& self.color == (Color { r: 0, g: 0, b: 0, a: 128 })
        &&& self.start.spec_on_canvas(width, height)
        &&& self.control1.spec_in_radius(self.start, border_extension)
        &&& self.control2.spec_in_radius(self.start, border_extension)
        &&& self.end.spec_in_radius(self.start, border_extension)
    }

    /// A random curve: a start drawn from the canvas, two control points and
    /// an end drawn within `border_extension` of it, and then one mutation.
    pub fn random<N: Fn(&mut StdRng) -> i32>(
        width: u32,
        height: u32,
        border_extension: i32,
        rng: &mut StdRng,
        noise: &N,
    ) -> (c: CubicBezier)
        requires
            0 < width,
            0 < height,
            1 <= border_extension,
            width + border_extension <= i32::MAX,
            height + border_extension <= i32::MAX,
            forall|g: &mut StdRng| call_requires(noise, (g,)),
        ensures
            exists|fresh: CubicBezier|
                fresh.spec_fresh(width as int, height as int, border_extension as int)
                    && #[trigger] c.spec_mutation_of(fresh, width as int, height as int),
            c.spec_is_valid(),
            c.color == (Color { r: 0, g: 0, b: 0, a: 128 }),
    {
        let start = PrimitivePoint::random_point(width, height, rng);
        let c1 = start.random_point_in_radius(border_extension, rng);
        let c2 = start.random_point_in_radius(border_extension, rng);
        let end = start.random_point_in_radius(border_extension, rng);
        let mut bezier = CubicBezier::new(start, end, c1, c2);
        let ghost fresh = bezier;
        bezier.mutate(width, height, rng, noise);
        assert(fresh.spec_fresh(width as int, height as int, border_extension as int)
            && bezier.spec_mutation_of(fresh, width as int, height as int));
        bezier
    }
}

} // verus!
