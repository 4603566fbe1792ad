use crate::canvas::Canvas;
use crate::canvas::Color;
use crate::canvas::colors_at;
use crate::canvas::mean_color;
use crate::canvas::painted;
use crate::point::PrimitivePoint;
use crate::primitive_image::PrimitiveImage;
use crate::random::uniform_i32;
use crate::raster::box_scan;
use crate::raster::column_scan;
use crate::scale::Ratio;
use crate::scale::spec_scaled_length;
use crate::utilities::larger;
use crate::utilities::rotate_offset;
use crate::utilities::spec_clamp;
use crate::utilities::spec_larger;
use crate::utilities::spec_rotated;
use rand::rngs::StdRng;
use vstd::prelude::*;

verus! {

/// The least side that a mutation leaves a rectangle, and the least that a
/// fresh one is given.
pub const MINIMUM_SIDE: u32 = 5;

/// The test that accepts every cell.
pub open spec fn every_cell() -> spec_fn(int, int) -> bool {
    |x: int, y: int| true
}

/// The placement that turns each offset about `center` by `angle` degrees.
pub open spec fn turned_place(center: PrimitivePoint, angle: int) -> spec_fn(int, int) -> PrimitivePoint {
    |dx: int, dy: int| spec_rotated(dx, dy, center, angle)
}

/// One single change of a rectangle, with what was drawn for it.
#[derive(Debug, Copy, Clone, PartialEq, Eq, Structural)]
pub enum RectangleChange {
    /// The centre moves by this noise along `x` and by this noise along `y`.
    Center(i32, i32),
    /// The width changes by this noise.
    Width(i32),
    /// The height changes by this noise.
    Height(i32),
    /// The rectangle is turned to this angle, in degrees.
    Angle(u32),
}

impl RectangleChange {
    /// Whether a mutation can draw this change: any noise, and an angle of
    /// less than a whole turn.
    pub open spec fn spec_drawable(&self) -> bool {
        match self {
            RectangleChange::Angle(angle) => *angle < 360,
            _ => true,
        }
    }
}

/// A rectangle of one colour, turned about its centre by `angle` degrees.
#[derive(Debug, Copy, Clone, PartialEq, Eq)]
pub struct Rectangle {
    pub color: Color,
    pub center: PrimitivePoint,
    pub width: u32,
    pub height: u32,
    pub angle: u32,
}

impl Rectangle {
    /// Every rectangle is valid.
    pub open spec fn spec_is_valid(&self) -> bool {
        true
    }

    pub fn is_valid(&self) -> (valid: bool)
        ensures
            valid == self.spec_is_valid(),
    {
        true
    }

    /// The covered pixels: the offsets of the upright box of half-sides
    /// `width / 2` and `height / 2`, both ends included, column by column,
    /// each turned about the centre.
    pub open spec fn spec_pixels(&self) -> Seq<PrimitivePoint> {
        box_scan(
            -(self.width as int / 2),
            -(self.height as int / 2),
            2 * (self.width as int / 2) + 1,
            2 * (self.height as int / 2) + 1,
            every_cell(),
            turned_place(self.center, self.angle as int),
        )
    }

    pub fn get_pixels(&self) -> (pixels: Vec<PrimitivePoint>)
        ensures
            pixels@ == self.spec_pixels(),
    {
        let min_x: i64 = -((self.width / 2) as i64);
        let min_y: i64 = -((self.height / 2) as i64);
        let columns: i64 = 2 * (self.width / 2) as i64 + 1;
        let rows: i64 = 2 * (self.height / 2) as i64 + 1;
        let ghost keep = every_cell();
        let ghost place = turned_place(self.center, self.angle as int);
        let mut pixels: Vec<PrimitivePoint> = Vec::new();
        let mut column: i64 = 0;
        while column < columns
            invariant
                0 <= column <= columns <= u32::MAX,
                0 < rows <= u32::MAX,
                -0x8000_0000 <= min_x <= 0,
                -0x8000_0000 <= min_y <= 0,
                keep == every_cell(),
                place == turned_place(self.center, self.angle as int),
                pixels@ == box_scan(min_x as int, min_y as int, column as int, rows as int, keep, place),
            decreases columns - column,
        {
            let dx: i64 = min_x + column;
            let ghost left = pixels@;
            let mut row: i64 = 0;
            while row < rows
                invariant
                    0 <= row <= rows <= u32::MAX,
                    dx == min_x + column,
                    -0x8000_0000 <= dx <= u32::MAX,
                    -0x8000_0000 <= min_y <= 0,
                    keep == every_cell(),
                    place == turned_place(self.center, self.angle as int),
                    pixels@ == left + column_scan(dx as int, min_y as int, row as int, keep, place),
                decreases rows - row,
            {
                let dy: i64 = min_y + row;
                let ghost above = column_scan(dx as int, min_y as int, row as int, keep, place);
                let p = rotate_offset(dx, dy, self.center, self.angle);
                pixels.push(p);
                assert(pixels@ == left + above.push(p));
                row += 1;
            }
            column += 1;
        }
        pixels
    }

    /// This rectangle painted over `image`.
    pub fn paint_on(&self, image: &Canvas) -> (out: Canvas)
        ensures
            out.same_size(image),
            out@ == painted(
                image@,
                image.spec_width() as int,
                image.spec_height() as int,
                self.spec_pixels(),
                self.color,
            ),
    {
        let pixels = self.get_pixels();
        image.paint(&pixels, self.color)
    }

    /// This rectangle with every length multiplied by `factor`.
    pub open spec fn spec_scaled(&self, factor: Ratio) -> Rectangle {
        Rectangle {
            center: factor.spec_scale_point(self.center),
            width: spec_scaled_length(
                self.width as int,
                factor.numerator as int,
                factor.denominator as int,
            ) as u32,
            height: spec_scaled_length(
                self.height as int,
                factor.numerator as int,
                factor.denominator as int,
            ) as u32,
            ..*self
        }
    }

    pub fn scaled(&self, factor: &Ratio) -> (s: Rectangle)
        requires
            factor.wf(),
        ensures
            s == self.spec_scaled(*factor),
    {
        Rectangle {
            center: factor.scale_point(self.center),
            width: factor.scale_length(self.width),
            height: factor.scale_length(self.height),
            ..*self
        }
    }

    /// This rectangle, scaled by `factor`, painted over `image`.
    pub fn scaled_paint_on(&self, image: &Canvas, factor: &Ratio) -> (out: Canvas)
        requires
            factor.wf(),
        ensures
            out.same_size(image),
            out@ == painted(
                image@,
                image.spec_width() as int,
                image.spec_height() as int,
                self.spec_scaled(*factor).spec_pixels(),
                self.color,
            ),
    {
        self.scaled(factor).paint_on(image)
    }

    /// Gives the rectangle the mean colour that the session's target has
    /// under it.
    pub fn set_color_using(&mut self, image: &PrimitiveImage)
        ensures
            *final(self) == (Rectangle {
                color: mean_color(
                    colors_at(
                        image.spec_target()@,
                        image.spec_target().spec_width() as int,
                        image.spec_target().spec_height() as int,
                        old(self).spec_pixels(),
                    ),
                ),
                ..*old(self)
            }),
    {
        let pixels = self.get_pixels();
        self.color = image.target().average_color_at(&pixels);
    }

    /// A side of length `side` after `noise` was added to it: held between
    /// `MINIMUM_SIDE` and the larger side of the canvas.
    pub open spec fn spec_resized(side: int, noise: int, width: int, height: int) -> int {
        spec_clamp(side + noise, MINIMUM_SIDE as int, spec_larger(width, height))
    }

    pub fn resized(side: u32, noise: i32, width: u32, height: u32) -> (r: u32)
        ensures
            r == Self::spec_resized(side as int, noise as int, width as int, height as int),
    {
        let changed: i64 = side as i64 + noise as i64;
        let most: i64 = larger(width, height) as i64;
        let capped: i64 = if changed > most { most } else { changed };
        if capped < MINIMUM_SIDE as i64 { MINIMUM_SIDE } else { capped as u32 }
    }

    /// The rectangle after `change` on a `width` by `height` canvas: the
    /// centre moved as a point is, a side resized, or the angle replaced; the
    /// other parameters as they were.
    pub open spec fn spec_changed(self, change: RectangleChange, width: int, height: int) -> Rectangle {
        match change {
            RectangleChange::Center(dx, dy) => Rectangle {
                center: self.center.spec_displaced(dx as int, dy as int, width, height),
                ..self
            },
            RectangleChange::Width(noise) => Rectangle {
                width: Self::spec_resized(self.width as int, noise as int, width, height) as u32,
                ..self
            },
            RectangleChange::Height(noise) => Rectangle {
                height: Self::spec_resized(self.height as int, noise as int, width, height) as u32,
                ..self
            },
            RectangleChange::Angle(angle) => Rectangle { angle, ..self },
        }
    }

    pub fn changed(self, change: RectangleChange, width: u32, height: u32) -> (r: Rectangle)
        ensures
            r == self.spec_changed(change, width as int, height as int),
    {
        match change {
            RectangleChange::Center(dx, dy) => Rectangle {
                center: self.center.displaced(dx, dy, width, height),
                ..self
            },
            RectangleChange::Width(noise) => Rectangle {
                width: Self::resized(self.width, noise, width, height),
                ..self
            },
            RectangleChange::Height(noise) => Rectangle {
                height: Self::resized(self.height, noise, width, height),
                ..self
            },
            RectangleChange::Angle(angle) => Rectangle { angle, ..self },
        }
    }

    /// What one mutation on a `width` by `height` canvas can make of
    /// `before`: `before` after a change that can be drawn.
    pub open spec fn spec_mutation_of(&self, before: Rectangle, width: int, height: int) -> bool {
        exists|change: RectangleChange|
            change.spec_drawable() && *self == #[trigger] before.spec_changed(change, width, height)
    }

    /// Draws one change: which parameter by a draw from `rng`, then two
    /// draws of `noise` for the centre, one for a side, or a draw from the
    /// whole turn for the angle.
    pub fn draw_change<N: Fn(&mut StdRng) -> i32>(rng: &mut StdRng, noise: &N) -> (change:
        RectangleChange)
        requires
            forall|g: &mut StdRng| call_requires(noise, (g,)),
        ensures
            change.spec_drawable(),
    {
        let which: i32 = uniform_i32(rng, 0, 4);
        if which == 0 {
            let dx: i32 = noise(rng);
            let dy: i32 = noise(rng);
            RectangleChange::Center(dx, dy)
        } else if which == 1 {
            RectangleChange::Width(noise(rng))
        } else if which == 2 {
            RectangleChange::Height(noise(rng))
        } else {
            RectangleChange::Angle(uniform_i32(rng, 0, 360) as u32)
        }
    }

    /// Makes one change, drawn from `rng` and `noise`. Every rectangle is
    /// valid, so the first change stands.
    pub fn mutate<N: Fn(&mut StdRng) -> i32>(
        &mut self,
        width: u32,
        height: u32,
        rng: &mut StdRng,
        noise: &N,
    )
        requires
            forall|g: &mut StdRng| call_requires(noise, (g,)),
        ensures
            final(self).spec_mutation_of(*old(self), width as int, height as int),
            final(self).spec_is_valid(),
            final(self).color == old(self).color,
    {
        let change = Self::draw_change(rng, noise);
        *self = self.changed(change, width, height);
    }

    /// Whether the rectangle is one that generation starts from: black at
    /// the fitted alpha, its centre on the canvas, each side at least
    /// `MINIMUM_SIDE` and less than half the larger side of the canvas, and
    /// its angle less than a whole turn.
    pub open spec fn spec_fresh(&self, width: int, height: int) -> bool {
        &&& self.color == (Color { r: 0, g: 0, b: 0, a: 128 })
        &&& self.center.spec_on_canvas(width, height)
        &&& MINIMUM_SIDE <= self.width < spec_larger(width, height) / 2
        &&& MINIMUM_SIDE <= self.height < spec_larger(width, height) / 2
        &&& self.angle < 360
    }

    /// A random rectangle: a centre drawn from the canvas, each side from
    /// `MINIMUM_SIDE` up to half the larger side of the canvas, an angle from
    /// the whole turn, and then one mutation.
    pub fn random<N: Fn(&mut StdRng) -> i32>(
        width: u32,
        height: u32,
        _border_extension: i32,
        rng: &mut StdRng,
        noise: &N,
    ) -> (r: Rectangle)
        requires
            0 < width <= i32::MAX,
            0 < height <= i32::MAX,
            spec_larger(width as int, height as int) / 2 > MINIMUM_SIDE,
            forall|g: &mut StdRng| call_requires(noise, (g,)),
        ensures
            exists|fresh: Rectangle|
                fresh.spec_fresh(width as int, height as int) && #[trigger] r.spec_mutation_of(
                    fresh,
                    width as int,
                    height as int,
                ),
            r.color == (Color { r: 0, g: 0, b: 0, a: 128 }),
            r.spec_is_valid(),
            r.angle < 360,
            MINIMUM_SIDE <= r.width <= spec_larger(width as int, height as int),
            MINIMUM_SIDE <= r.height <= spec_larger(width as int, height as int),
    {
        let center = PrimitivePoint::random_point(width, height, rng);
        let most: i32 = (larger(width, height) / 2) as i32;
        let side_x: u32 = uniform_i32(rng, MINIMUM_SIDE as i32, most) as u32;
        let side_y: u32 = uniform_i32(rng, MINIMUM_SIDE as i32, most) as u32;
        let angle: u32 = uniform_i32(rng, 0, 360) as u32;
        let mut rect = Rectangle {
            center,
            width: side_x,
            height: side_y,
            angle,
            color: Color { r: 0, g: 0, b: 0, a: 128 },
        };
        let ghost fresh = rect;
        rect.mutate(width, height, rng, noise);
        assert(fresh.spec_fresh(width as int, height as int) && rect.spec_mutation_of(
            fresh,
            width as int,
            height as int,
        ));
        rect
    }
}

} // verus!
