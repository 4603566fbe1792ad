use crate::arithmetic::product_less;
use crate::random::uniform_i32;
use crate::utilities::saturate;
use crate::utilities::spec_clamp;
use crate::utilities::spec_saturate;
use rand::rngs::StdRng;
use vstd::prelude::*;

verus! {

/// How far outside the canvas a mutated point may come to lie.
pub const MUTATION_BORDER: i32 = 5;

/// The standard deviation, in pixels, of the normal deviate of mean zero that
/// a `noise` function is meant to draw before it cuts it to a whole number.
pub const NOISE_DEVIATION: u32 = 16;

/// A pixel position in working space. Coordinates may lie outside the canvas.
#[derive(Debug, Copy, Clone, PartialEq, Eq, Structural)]
pub struct PrimitivePoint {
    pub x: i32,
    pub y: i32,
}

/// The dot product of the vectors from `vertex` to `p2` and to `p3`.
pub open spec fn spec_dot(vertex: PrimitivePoint, p2: PrimitivePoint, p3: PrimitivePoint) -> int {
    (p2.x - vertex.x) * (p3.x - vertex.x) + (p2.y - vertex.y) * (p3.y - vertex.y)
}

/// The cross product of the vectors from `vertex` to `p2` and to `p3`.
pub open spec fn spec_cross(vertex: PrimitivePoint, p2: PrimitivePoint, p3: PrimitivePoint) -> int {
    (p2.x - vertex.x) * (p3.y - vertex.y) - (p2.y - vertex.y) * (p3.x - vertex.x)
}

/// The absolute value of `v`.
pub open spec fn spec_abs(v: int) -> int {
    if v < 0 { -v } else { v }
}

impl PrimitivePoint {
    /// Whether the point lies on the canvas or within `border` pixels of it.
    pub open spec fn spec_near_canvas(self, width: int, height: int, border: int) -> bool {
        -border <= self.x <= width + border && -border <= self.y <= height + border
    }

    /// Whether the point lies on the canvas.
    pub open spec fn spec_on_canvas(self, width: int, height: int) -> bool {
        0 <= self.x < width && 0 <= self.y < height
    }

    /// Whether the point lies in the square of half-side `radius` around
    /// `center`, the far sides left out.
    pub open spec fn spec_in_radius(self, center: PrimitivePoint, radius: int) -> bool {
        center.x - radius <= self.x < center.x + radius && center.y - radius <= self.y < center.y
            + radius
    }

    pub fn new(x: i32, y: i32) -> (p: PrimitivePoint)
        ensures
            p.x == x,
            p.y == y,
    {
        PrimitivePoint { x, y }
    }

    /// This point moved by `(dx, dy)` and then held inside the canvas grown
    /// by `MUTATION_BORDER` on every side, and inside the 32-bit range where
    /// the grown canvas leaves it.
    pub open spec fn spec_displaced(self, dx: int, dy: int, width: int, height: int) -> PrimitivePoint {
        PrimitivePoint {
            x: spec_saturate(
                spec_clamp(self.x + dx, -(MUTATION_BORDER as int), width + MUTATION_BORDER),
            ) as i32,
            y: spec_saturate(
                spec_clamp(self.y + dy, -(MUTATION_BORDER as int), height + MUTATION_BORDER),
            ) as i32,
        }
    }

    /// Moves the point by `(dx, dy)`, keeping it within `MUTATION_BORDER`
    /// pixels of the canvas.
    pub fn displaced(self, dx: i32, dy: i32, width: u32, height: u32) -> (p: PrimitivePoint)
        ensures
            p == self.spec_displaced(dx as int, dy as int, width as int, height as int),
            p.spec_near_canvas(width as int, height as int, MUTATION_BORDER as int),
    {
        let moved_x: i64 = self.x as i64 + dx as i64;
        let moved_y: i64 = self.y as i64 + dy as i64;
        let max_x: i64 = width as i64 + MUTATION_BORDER as i64;
        let max_y: i64 = height as i64 + MUTATION_BORDER as i64;
        let low: i64 = -(MUTATION_BORDER as i64);
        let capped_x: i64 = if moved_x > max_x { max_x } else { moved_x };
        let capped_y: i64 = if moved_y > max_y { max_y } else { moved_y };
        PrimitivePoint {
            x: saturate((if capped_x < low { low } else { capped_x }) as i128),
            y: saturate((if capped_y < low { low } else { capped_y }) as i128),
        }
    }

    /// Moves the point by two draws of `noise`, the first for `x` and the
    /// second for `y`, keeping it within `MUTATION_BORDER` pixels of the
    /// canvas.
    pub fn mutate<N: Fn(&mut StdRng) -> i32>(
        &mut self,
        width: u32,
        height: u32,
        rng: &mut StdRng,
        noise: &N,
    )
        requires
            forall|g: &mut StdRng| call_requires(noise, (g,)),
        ensures
            exists|dx: i32, dy: i32|
                *final(self) == #[trigger] old(self).spec_displaced(
                    dx as int,
                    dy as int,
                    width as int,
                    height as int,
                ),
            final(self).spec_near_canvas(width as int, height as int, MUTATION_BORDER as int),
    {
        let dx: i32 = noise(rng);
        let dy: i32 = noise(rng);
        let moved = self.displaced(dx, dy, width, height);
        assert(moved == self.spec_displaced(dx as int, dy as int, width as int, height as int));
        *self = moved;
    }

    /// Whether the angle at `self` between the directions to `p2` and to `p3`
    /// is wider than 15 degrees. With `d` the dot product and `c` the cross
    /// product of the two directions, the angle is wider when `d <= 0` (it is
    /// at least a right angle) or `|c| / d` exceeds `tan 15 = 2 - sqrt 3`,
    /// that is when `2 d - |c| <= 0` or `(2 d - |c|)^2 < 3 d^2`.
    pub open spec fn spec_angle_exceeds_minimum(self, p2: PrimitivePoint, p3: PrimitivePoint) -> bool {
        let d = spec_dot(self, p2, p3);
        let t = 2 * d - spec_abs(spec_cross(self, p2, p3));
        d <= 0 || t <= 0 || t * t < 3 * d * d
    }

    /// Decides exactly, in integers, whether the angle at `self` between the
    /// directions to `p2` and to `p3` is wider than 15 degrees.
    pub fn angle_exceeds_minimum(&self, p2: PrimitivePoint, p3: PrimitivePoint) -> (wide: bool)
        ensures
            wide == self.spec_angle_exceeds_minimum(p2, p3),
    {
        let ax: i128 = p2.x as i128 - self.x as i128;
        let ay: i128 = p2.y as i128 - self.y as i128;
        let bx: i128 = p3.x as i128 - self.x as i128;
        let by: i128 = p3.y as i128 - self.y as i128;
        proof {
            lemma_product_bounds(ax as int, bx as int);
            lemma_product_bounds(ay as int, by as int);
            lemma_product_bounds(ax as int, by as int);
            lemma_product_bounds(ay as int, bx as int);
        }
        let d: i128 = ax * bx + ay * by;
        let c: i128 = ax * by - ay * bx;
        let t: i128 = 2 * d - (if c < 0 { -c } else { c });
        if d <= 0 || t <= 0 {
            true
        } else {
            assert(3 * d * d == (3 * d) * d) by (nonlinear_arith);
            product_less(t as u128, t as u128, 3 * d as u128, d as u128)
        }
    }

    /// A point drawn from the canvas `[0, width) x [0, height)`, `x` first.
    pub fn random_point(width: u32, height: u32, rng: &mut StdRng) -> (p: PrimitivePoint)
        requires
            0 < width <= i32::MAX,
            0 < height <= i32::MAX,
        ensures
            p.spec_on_canvas(width as int, height as int),
    {
        let rand_x: i32 = uniform_i32(rng, 0, width as i32);
        let rand_y: i32 = uniform_i32(rng, 0, height as i32);
        PrimitivePoint::new(rand_x, rand_y)
    }

    /// A point drawn from the square of half-side `radius` around this one:
    /// each coordinate from `[c - radius, c + radius)`, `x` first.
    pub fn random_point_in_radius(&self, radius: i32, rng: &mut StdRng) -> (p: PrimitivePoint)
        requires
            radius > 0,
            i32::MIN <= self.x - radius,
            self.x + radius <= i32::MAX,
            i32::MIN <= self.y - radius,
            self.y + radius <= i32::MAX,
        ensures
            p.spec_in_radius(*self, radius as int),
    {
        let rand_x: i32 = uniform_i32(rng, self.x - radius, self.x + radius);
        let rand_y: i32 = uniform_i32(rng, self.y - radius, self.y + radius);
        PrimitivePoint::new(rand_x, rand_y)
    }
}

/// The least of three coordinates.
pub open spec fn spec_min3(a: int, b: int, c: int) -> int {
    if a <= b && a <= c { a } else if b <= c { b } else { c }
}

/// The greatest of three coordinates.
pub open spec fn spec_max3(a: int, b: int, c: int) -> int {
    if a >= b && a >= c { a } else if b >= c { b } else { c }
}

pub fn min3(a: i32, b: i32, c: i32) -> (m: i32)
    ensures
        m == spec_min3(a as int, b as int, c as int),
{
    if a <= b && a <= c { a } else if b <= c { b } else { c }
}

pub fn max3(a: i32, b: i32, c: i32) -> (m: i32)
    ensures
        m == spec_max3(a as int, b as int, c as int),
{
    if a >= b && a >= c { a } else if b >= c { b } else { c }
}

/// The product of two differences of 32-bit coordinates stays within 65 bits.
pub proof fn lemma_product_bounds(a: int, b: int)
    requires
        -0x1_0000_0000 < a < 0x1_0000_0000,
        -0x1_0000_0000 < b < 0x1_0000_0000,
    ensures
        -0x1_0000_0000_0000_0000 < a * b < 0x1_0000_0000_0000_0000,
{
    assert(-0x1_0000_0000_0000_0000 < a * b < 0x1_0000_0000_0000_0000) by (nonlinear_arith)
        requires
            -0x1_0000_0000 < a < 0x1_0000_0000,
            -0x1_0000_0000 < b < 0x1_0000_0000,
    ;
}

} // verus!
