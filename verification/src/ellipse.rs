use crate::canvas::Canvas;
use crate::canvas::Color;
use crate::canvas::colors_at;
use crate::canvas::mean_color;
use crate::canvas::painted;
use crate::point::PrimitivePoint;
use crate::primitive_image::PrimitiveImage;
use crate::random::uniform_i32;
use crate::raster::box_scan;
use crate::raster::column_scan;
use crate::rectangle::turned_place;
use crate::scale::Ratio;
use crate::scale::spec_scaled_coordinate;
use crate::shape::MAXIMUM_MUTATION_ATTEMPTS;
use crate::shape::Retry;
use crate::shape::ShapeError;
use crate::shape::after_change;
use crate::utilities::larger;
use crate::utilities::rotate_offset;
use crate::utilities::saturate;
use crate::utilities::spec_clamp;
use crate::utilities::spec_saturate;
use crate::utilities::spec_larger;
use rand::rngs::StdRng;
use vstd::prelude::*;

verus! {

/// Whether the offset `(dx, dy)` from the centre lies in the upright
/// ellipse of semi-axes `a` and `b`: `(dx / a)^2 + (dy / b)^2 <= 1`, cleared
/// of fractions. An ellipse with a semi-axis of zero holds nothing.
pub open spec fn spec_inside(a: int, b: int, dx: int, dy: int) -> bool {
    a != 0 && b != 0 && (dx * dx) * (b * b) + (dy * dy) * (a * a) <= (a * a) * (b * b)
}

/// The test on offsets that the upright ellipse of semi-axes `a` and `b`
/// makes.
pub open spec fn inside_test(a: int, b: int) -> spec_fn(int, int) -> bool {
    |dx: int, dy: int| spec_inside(a, b, dx, dy)
}

fn inside(a: i32, b: i32, dx: i64, dy: i64) -> (r: bool)
    requires
        -0x1_0000_0000 < dx < 0x1_0000_0000,
        -0x1_0000_0000 < dy < 0x1_0000_0000,
    ensures
        r == spec_inside(a as int, b as int, dx as int, dy as int),
{
    if a == 0 || b == 0 {
        return false;
    }
    proof {
        lemma_square_below(dx as int, 0x1_0000_0000);
        lemma_square_below(dy as int, 0x1_0000_0000);
        lemma_square_below(a as int, 0x8000_0001);
        lemma_square_below(b as int, 0x8000_0001);
    }
    let dx2: u128 = (dx as i128 * dx as i128) as u128;
    let dy2: u128 = (dy as i128 * dy as i128) as u128;
    let a2: u128 = (a as i64 * a as i64) as u128;
    let b2: u128 = (b as i64 * b as i64) as u128;
    proof {
        lemma_product_below(dx2 as int, b2 as int, 0x1_0000_0000_0000_0000, 0x4000_0001_0000_0001);
        lemma_product_below(dy2 as int, a2 as int, 0x1_0000_0000_0000_0000, 0x4000_0001_0000_0001);
        lemma_product_below(a2 as int, b2 as int, 0x4000_0001_0000_0001, 0x4000_0001_0000_0001);
    }
    dx2 * b2 + dy2 * a2 <= a2 * b2
}

proof fn lemma_square_below(v: int, bound: int)
    requires
        -bound < v < bound,
    ensures
        0 <= v * v < bound * bound,
{
    assert(0 <= v * v < bound * bound) by (nonlinear_arith)
        requires
            -bound < v < bound,
    ;
}

proof fn lemma_product_below(p: int, q: int, p_bound: int, q_bound: int)
    requires
        0 <= p < p_bound,
        0 <= q < q_bound,
    ensures
        0 <= p * q < p_bound * q_bound,
{
    assert(0 <= p * q < p_bound * q_bound) by (nonlinear_arith)
        requires
            0 <= p < p_bound,
            0 <= q < q_bound,
    ;
}

/// One single change of an ellipse, with what was drawn for it.
#[derive(Debug, Copy, Clone, PartialEq, Eq, Structural)]
pub enum EllipseChange {
    /// The centre moves by this noise along `x` and by this noise along `y`.
    Center(i32, i32),
    /// The first semi-axis changes by this noise.
    A(i32),
    /// The second semi-axis changes by this noise.
    B(i32),
    /// The ellipse is turned to this angle, in degrees.
    Angle(u32),
}

impl EllipseChange {
    /// Whether a mutation can draw this change: any noise, and an angle of
    /// less than a whole turn.
    pub open spec fn spec_drawable(&self) -> bool {
        match self {
            EllipseChange::Angle(angle) => *angle < 360,
            _ => true,
        }
    }
}

/// An ellipse of one colour, turned about its centre by `angle` degrees.
#[derive(Debug, Copy, Clone, PartialEq, Eq)]
pub struct Ellipse {
    pub color: Color,
    pub center: PrimitivePoint,
    pub a: i32,
    pub b: i32,
    pub angle: u32,
}

impl Ellipse {
    /// An ellipse is valid on a canvas when each semi-axis is shorter than a
    /// tenth of the canvas's larger side.
    pub open spec fn spec_is_valid(&self, width: int, height: int) -> bool {
        10 * self.a < spec_larger(width, height) && 10 * self.b < spec_larger(width, height)
    }

    pub fn is_valid(&self, width: u32, height: u32) -> (valid: bool)
        ensures
            valid == self.spec_is_valid(width as int, height as int),
    {
        let most: i64 = larger(width, height) as i64;
        10 * (self.a as i64) < most && 10 * (self.b as i64) < most
    }

    /// Whether the upright ellipse, before it is turned, covers the pixel
    /// `(x, y)`.
    pub open spec fn spec_un_rotated_contains_pixel(&self, x: int, y: int) -> bool {
        spec_inside(self.a as int, self.b as int, x - self.center.x, y - self.center.y)
    }

    pub fn un_rotated_contains_pixel(&self, x: i32, y: i32) -> (covered: bool)
        ensures
            covered == self.spec_un_rotated_contains_pixel(x as int, y as int),
    {
        inside(self.a, self.b, x as i64 - self.center.x as i64, y as i64 - self.center.y as i64)
    }

    /// The test that decides which offsets from the centre are covered.
    pub open spec fn covers(&self) -> spec_fn(int, int) -> bool {
        inside_test(self.a as int, self.b as int)
    }

    /// How many offsets the scan visits along a semi-axis: those from the
    /// axis taken negative up to the axis itself, both included.
    pub open spec fn spec_span(axis: int) -> int {
        if axis >= 0 { 2 * axis + 1 } else { 0 }
    }

    /// The covered pixels: the offsets of the box from `-a` to `a` and from
    /// `-b` to `b`, the rim included, that lie in the upright ellipse, column
    /// by column, each turned about the centre.
    pub open spec fn spec_pixels(&self) -> Seq<PrimitivePoint> {
        box_scan(
            -(self.a as int),
            -(self.b as int),
            Self::spec_span(self.a as int),
            Self::spec_span(self.b as int),
            self.covers(),
            turned_place(self.center, self.angle as int),
        )
    }

    pub fn get_pixels(&self) -> (pixels: Vec<PrimitivePoint>)
        ensures
            pixels@ == self.spec_pixels(),
    {
        let min_x: i64 = -(self.a as i64);
        let min_y: i64 = -(self.b as i64);
        let columns: i64 = if self.a >= 0 { 2 * self.a as i64 + 1 } else { 0 };
        let rows: i64 = if self.b >= 0 { 2 * self.b as i64 + 1 } else { 0 };
        let ghost keep = self.covers();
        let ghost place = turned_place(self.center, self.angle as int);
        let mut pixels: Vec<PrimitivePoint> = Vec::new();
        let mut column: i64 = 0;
        while column < columns
            invariant
                0 <= column <= columns,
                columns == Self::spec_span(self.a as int),
                rows == Self::spec_span(self.b as int),
                min_x == -self.a,
                min_y == -self.b,
                keep == self.covers(),
                place == turned_place(self.center, self.angle as int),
                pixels@ == box_scan(min_x as int, min_y as int, column as int, rows as int, keep, place),
            decreases columns - column,
        {
            let dx: i64 = min_x + column;
            let ghost left = pixels@;
            let mut row: i64 = 0;
            while row < rows
                invariant
                    0 <= row <= rows,
                    0 <= column < columns,
                    columns == Self::spec_span(self.a as int),
                    rows == Self::spec_span(self.b as int),
                    min_x == -self.a,
                    min_y == -self.b,
                    dx == min_x + column,
                    keep == self.covers(),
                    place == turned_place(self.center, self.angle as int),
                    pixels@ == left + column_scan(dx as int, min_y as int, row as int, keep, place),
                decreases rows - row,
            {
                let dy: i64 = min_y + row;
                let ghost above = column_scan(dx as int, min_y as int, row as int, keep, place);
                if inside(self.a, self.b, dx, dy) {
                    let p = rotate_offset(dx, dy, self.center, self.angle);
                    pixels.push(p);
                    assert(pixels@ == left + above.push(p));
                }
                row += 1;
            }
            column += 1;
        }
        pixels
    }

    /// This ellipse painted over `image`.
    pub fn paint_on(&self, image: &Canvas) -> (out: Canvas)
        ensures
            out.same_size(image),
            out@ == painted(
                image@,
                image.spec_width() as int,
                image.spec_height() as int,
                self.spec_pixels(),
                self.color,
            ),
    {
        let pixels = self.get_pixels();
        image.paint(&pixels, self.color)
    }

    /// This ellipse with every length multiplied by `factor`.
    pub open spec fn spec_scaled(&self, factor: Ratio) -> Ellipse {
        Ellipse {
            center: factor.spec_scale_point(self.center),
            a: spec_scaled_coordinate(
                self.a as int,
                factor.numerator as int,
                factor.denominator as int,
            ) as i32,
            b: spec_scaled_coordinate(
                self.b as int,
                factor.numerator as int,
                factor.denominator as int,
            ) as i32,
            ..*self
        }
    }

    pub fn scaled(&self, factor: &Ratio) -> (s: Ellipse)
        requires
            factor.wf(),
        ensures
            s == self.spec_scaled(*factor),
    {
        Ellipse {
            center: factor.scale_point(self.center),
            a: factor.scale_coordinate(self.a),
            b: factor.scale_coordinate(self.b),
            ..*self
        }
    }

    /// This ellipse, scaled by `factor`, painted over `image`.
    pub fn scaled_paint_on(&self, image: &Canvas, factor: &Ratio) -> (out: Canvas)
        requires
            factor.wf(),
        ensures
            out.same_size(image),
            out@ == painted(
                image@,
                image.spec_width() as int,
                image.spec_height() as int,
                self.spec_scaled(*factor).spec_pixels(),
                self.color,
            ),
    {
        self.scaled(factor).paint_on(image)
    }

    /// Gives the ellipse the mean colour that the session's target has under
    /// it.
    pub fn set_color_using(&mut self, image: &PrimitiveImage)
        ensures
            *final(self) == (Ellipse {
                color: mean_color(
                    colors_at(
                        image.spec_target()@,
                        image.spec_target().spec_width() as int,
                        image.spec_target().spec_height() as int,
                        old(self).spec_pixels(),
                    ),
                ),
                ..*old(self)
            }),
    {
        let pixels = self.get_pixels();
        self.color = image.target().average_color_at(&pixels);
    }

    /// A semi-axis of length `axis` after `noise` was added to it: held
    /// between one and the larger side of the canvas, and inside the 32-bit
    /// range where that side leaves it.
    pub open spec fn spec_resized(axis: int, noise: int, width: int, height: int) -> int {
        spec_saturate(spec_clamp(axis + noise, 1, spec_larger(width, height)))
    }

    pub fn resized(axis: i32, noise: i32, width: u32, height: u32) -> (r: i32)
        ensures
            r == Self::spec_resized(axis as int, noise as int, width as int, height as int),
    {
        let changed: i64 = axis as i64 + noise as i64;
        let most: i64 = larger(width, height) as i64;
        let capped: i64 = if changed > most { most } else { changed };
        if capped < 1 { 1 } else { saturate(capped as i128) }
    }

    /// The ellipse after `change` on a `width` by `height` canvas: the centre
    /// moved as a point is, a semi-axis resized, or the angle replaced; the
    /// other parameters as they were.
    pub open spec fn spec_changed(self, change: EllipseChange, width: int, height: int) -> Ellipse {
        match change {
            EllipseChange::Center(dx, dy) => Ellipse {
                center: self.center.spec_displaced(dx as int, dy as int, width, height),
                ..self
            },
            EllipseChange::A(noise) => Ellipse {
                a: Self::spec_resized(self.a as int, noise as int, width, height) as i32,
                ..self
            },
            EllipseChange::B(noise) => Ellipse {
                b: Self::spec_resized(self.b as int, noise as int, width, height) as i32,
                ..self
            },
            EllipseChange::Angle(angle) => Ellipse { angle, ..self },
        }
    }

    pub fn changed(self, change: EllipseChange, width: u32, height: u32) -> (e: Ellipse)
        ensures
            e == self.spec_changed(change, width as int, height as int),
    {
        match change {
            EllipseChange::Center(dx, dy) => Ellipse {
                center: self.center.displaced(dx, dy, width, height),
                ..self
            },
            EllipseChange::A(noise) => Ellipse {
                a: Self::resized(self.a, noise, width, height),
                ..self
            },
            EllipseChange::B(noise) => Ellipse {
                b: Self::resized(self.b, noise, width, height),
                ..self
            },
            EllipseChange::Angle(angle) => Ellipse { angle, ..self },
        }
    }

    /// What one change on a `width` by `height` canvas can make of `before`:
    /// `before` after a change that can be drawn.
    pub open spec fn spec_mutation_of(&self, before: Ellipse, width: int, height: int) -> bool {
        exists|change: EllipseChange|
            change.spec_drawable() && *self == #[trigger] before.spec_changed(change, width, height)
    }

    /// Whether `self` comes from `before` by `failures` single changes on a
    /// `width` by `height` canvas, one after the other, of which none gave a
    /// valid shape.
    pub open spec fn spec_failed_from(
        &self,
        before: Ellipse,
        width: int,
        height: int,
        failures: nat,
    ) -> bool
        decreases failures,
    {
        if failures == 0 {
            *self == before
        } else {
            exists|mid: Ellipse|
                mid.spec_failed_from(before, width, height, (failures - 1) as nat)
                    && #[trigger] self.spec_mutation_of(mid, width, height)
                        && !self.spec_is_valid(width, height)
        }
    }

    /// Whether `self` is what a mutation on a `width` by `height` canvas can
    /// make of `before`: one more single change after a run of changes that
    /// all failed, the run no longer than the attempts allow. A mutation
    /// returns the first valid shape that its changes give.
    pub open spec fn spec_mutated_from(&self, before: Ellipse, width: int, height: int) -> bool {
        exists|mid: Ellipse, failures: nat|
            failures <= MAXIMUM_MUTATION_ATTEMPTS && #[trigger] mid.spec_failed_from(
                before,
                width,
                height,
                failures,
            ) && self.spec_mutation_of(mid, width, height)
    }

    /// Whether a mutation of `self` on a `width` by `height` canvas can give
    /// up: there is a run of single changes from it that all failed and that
    /// is one longer than `MAXIMUM_MUTATION_ATTEMPTS`.
    pub open spec fn spec_exhausted(&self, width: int, height: int) -> bool {
        exists|last: Ellipse|
            #[trigger] last.spec_failed_from(
                *self,
                width,
                height,
                (MAXIMUM_MUTATION_ATTEMPTS + 1) as nat,
            )
    }

    /// Draws one change: which parameter by a draw from `rng`, then two
    /// draws of `noise` for the centre, one for a semi-axis, or a draw from
    /// the whole turn for the angle.
    pub fn draw_change<N: Fn(&mut StdRng) -> i32>(rng: &mut StdRng, noise: &N) -> (change:
        EllipseChange)
        requires
            forall|g: &mut StdRng| call_requires(noise, (g,)),
        ensures
            change.spec_drawable(),
    {
        let which: i32 = uniform_i32(rng, 0, 4);
        if which == 0 {
            let dx: i32 = noise(rng);
            let dy: i32 = noise(rng);
            EllipseChange::Center(dx, dy)
        } else if which == 1 {
            EllipseChange::A(noise(rng))
        } else if which == 2 {
            EllipseChange::B(noise(rng))
        } else {
            EllipseChange::Angle(uniform_i32(rng, 0, 360) as u32)
        }
    }

    /// Changes one parameter at a time, each change on top of the last, until
    /// the ellipse is valid on the canvas. Gives up, leaving the ellipse as
    /// it was, when the attempt after `MAXIMUM_MUTATION_ATTEMPTS` failures
    /// fails too.
    pub fn mutate<N: Fn(&mut StdRng) -> i32>(
        &mut self,
        width: u32,
        height: u32,
        rng: &mut StdRng,
        noise: &N,
    ) -> (res: Result<(), ShapeError>)
        requires
            forall|g: &mut StdRng| call_requires(noise, (g,)),
        ensures
            final(self).color == old(self).color,
            res is Ok ==> final(self).spec_is_valid(width as int, height as int),
            res is Ok ==> final(self).spec_mutated_from(*old(self), width as int, height as int),
            res is Err ==> *final(self) == *old(self),
            res is Err ==> old(self).spec_exhausted(width as int, height as int),
    {
        let mut candidate = *self;
        let mut failures: u32 = 0;
        loop
            invariant
                failures <= MAXIMUM_MUTATION_ATTEMPTS,
                forall|g: &mut StdRng| call_requires(noise, (g,)),
                candidate.color == self.color,
                *self == *old(self),
                candidate.spec_failed_from(*self, width as int, height as int, failures as nat),
            decreases MAXIMUM_MUTATION_ATTEMPTS - failures,
        {
            let change = Self::draw_change(rng, noise);
            let next = candidate.changed(change, width, height);
            assert(next.spec_mutation_of(candidate, width as int, height as int));
            match after_change(next.is_valid(width, height), failures) {
                Retry::Done => {
                    *self = next;
                    return Ok(());
                },
                Retry::GiveUp => {
                    assert(next.spec_failed_from(
                        *self,
                        width as int,
                        height as int,
                        (failures + 1) as nat,
                    ));
                    return Err(ShapeError::GenerationExhausted);
                },
                Retry::Again => {
                    candidate = next;
                    failures += 1;
                },
            }
        }
    }

    /// Whether the ellipse is one that generation starts from: black at the
    /// fitted alpha, its centre on the canvas, each semi-axis at least one and
    /// less than a tenth of the larger side of the canvas, and its angle less
    /// than a whole turn.
    pub open spec fn spec_fresh(&self, width: int, height: int) -> bool {
        &&& self.color == (Color { r: 0, g: 0, b: 0, a: 128 })
        &&& self.center.spec_on_canvas(width, height)
        &&& 1 <= self.a < spec_larger(width, height) / 10
        &&& 1 <= self.b < spec_larger(width, height) / 10
        &&& self.angle < 360
    }

    /// A random valid ellipse: a centre drawn from the canvas, each semi-axis
    /// from one up to a tenth of the larger side of the canvas, an angle from
    /// the whole turn, and then one mutation.
    pub fn random<N: Fn(&mut StdRng) -> i32>(
        width: u32,
        height: u32,
        _border_extension: i32,
        rng: &mut StdRng,
        noise: &N,
    ) -> (res: Result<Ellipse, ShapeError>)
        requires
            0 < width <= i32::MAX,
            0 < height <= i32::MAX,
            spec_larger(width as int, height as int) / 10 > 1,
            forall|g: &mut StdRng| call_requires(noise, (g,)),
        ensures
            res is Ok ==> exists|fresh: Ellipse|
                fresh.spec_fresh(width as int, height as int)
                    && #[trigger] (res->Ok_0).spec_mutated_from(
                    fresh,
                    width as int,
                    height as int,
                ),
            res is Err ==> exists|fresh: Ellipse|
                fresh.spec_fresh(width as int, height as int) && #[trigger] fresh.spec_exhausted(
                    width as int,
                    height as int,
                ),
            res matches Ok(e) ==> e.spec_is_valid(width as int, height as int) && e.color == (Color {
                r: 0,
                g: 0,
                b: 0,
                a: 128,
            }),
    {
        let center = PrimitivePoint::random_point(width, height, rng);
        let most: i32 = (larger(width, height) / 10) as i32;
        let a: i32 = uniform_i32(rng, 1, most);
        let b: i32 = uniform_i32(rng, 1, most);
        let angle: u32 = uniform_i32(rng, 0, 360) as u32;
        let mut ellipse = Ellipse { center, a, b, angle, color: Color { r: 0, g: 0, b: 0, a: 128 } };
        let ghost fresh = ellipse;
        match ellipse.mutate(width, height, rng, noise) {
            Ok(()) => {
                proof {
                    let out: Result<Ellipse, ShapeError> = Ok(ellipse);
                    assert(fresh.spec_fresh(width as int, height as int)
                        && (out->Ok_0).spec_mutated_from(
                        fresh,
                        width as int,
                        height as int,
                    ));
                }
                Ok(ellipse)
            },
            Err(e) => {
                proof {
                    assert(fresh.spec_fresh(width as int, height as int) && fresh.spec_exhausted(
                        width as int,
                        height as int,
                    ));
                }
                Err(e)
            },
        }
    }
}

} // verus!
