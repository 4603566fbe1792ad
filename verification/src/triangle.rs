use crate::canvas::Canvas;
use crate::canvas::Color;
use crate::canvas::colors_at;
use crate::canvas::mean_color;
use crate::canvas::painted;
use crate::point::MUTATION_BORDER;
use crate::point::PrimitivePoint;
use crate::point::lemma_product_bounds;
use crate::point::max3;
use crate::point::min3;
use crate::point::spec_cross;
use crate::point::spec_dot;
use crate::point::spec_max3;
use crate::point::spec_min3;
use crate::primitive_image::PrimitiveImage;
use crate::random::uniform_i32;
use crate::raster::box_scan;
use crate::raster::column_scan;
use crate::raster::lemma_box_scan_members;
use crate::raster::own_place;
use crate::raster::pixel_at;
use crate::scale::Ratio;
use crate::shape::MAXIMUM_MUTATION_ATTEMPTS;
use crate::shape::Retry;
use crate::shape::ShapeError;
use crate::shape::after_change;
use crate::utilities::spec_larger;
use rand::rngs::StdRng;
use vstd::prelude::*;

verus! {

/// The edge function of the directed edge from `a` to `b` at `(x, y)`:
/// `(b - a) x ((x, y) - a)`. Its sign tells on which side of the edge the
/// point lies; it is zero on the line through the edge.
pub open spec fn spec_edge(a: PrimitivePoint, b: PrimitivePoint, x: int, y: int) -> int {
    (b.x - a.x) * (y - a.y) - (b.y - a.y) * (x - a.x)
}

/// The orientation determinant of `p0`, `p1`, `p2`: the edge function of the
/// edge from `p0` to `p1` at `p2`.
pub open spec fn spec_orient_2d(p0: PrimitivePoint, p1: PrimitivePoint, p2: PrimitivePoint) -> int {
    spec_edge(p0, p1, p2.x as int, p2.y as int)
}

/// Computes the orientation determinant in 128 bits, which hold it for every
/// three points.
pub fn orient_2d(p0: PrimitivePoint, p1: PrimitivePoint, p2: PrimitivePoint) -> (w: i128)
    ensures
        w == spec_orient_2d(p0, p1, p2),
{
    let ax: i128 = p1.x as i128 - p0.x as i128;
    let ay: i128 = p1.y as i128 - p0.y as i128;
    let bx: i128 = p2.x as i128 - p0.x as i128;
    let by: i128 = p2.y as i128 - p0.y as i128;
    proof {
        lemma_product_bounds(ax as int, by as int);
        lemma_product_bounds(ay as int, bx as int);
    }
    ax * by - ay * bx
}

/// Whether the three edge functions of the triangle `a`, `b`, `c` agree in
/// sign at `(x, y)`, zero agreeing with either sign.
pub open spec fn same_side(
    a: PrimitivePoint,
    b: PrimitivePoint,
    c: PrimitivePoint,
    x: int,
    y: int,
) -> bool {
    let w0 = spec_edge(b, c, x, y);
    let w1 = spec_edge(c, a, x, y);
    let w2 = spec_edge(a, b, x, y);
    (w0 >= 0 && w1 >= 0 && w2 >= 0) || (w0 <= 0 && w1 <= 0 && w2 <= 0)
}

/// The sign test of the triangle `a`, `b`, `c` as a test on cells.
pub open spec fn sign_test(a: PrimitivePoint, b: PrimitivePoint, c: PrimitivePoint) -> spec_fn(
    int,
    int,
) -> bool {
    |x: int, y: int| same_side(a, b, c, x, y)
}

/// Reversing an edge negates its edge function.
pub proof fn lemma_edge_reversed(a: PrimitivePoint, b: PrimitivePoint, x: int, y: int)
    ensures
        spec_edge(b, a, x, y) == -spec_edge(a, b, x, y),
{
    assert((a.x - b.x) * (y - b.y) - (a.y - b.y) * (x - b.x) == -((b.x - a.x) * (y - a.y) - (b.y
        - a.y) * (x - a.x))) by (nonlinear_arith);
}

/// The sign test does not depend on the order in which the vertices are
/// named: exchanging two of them leaves it as it was.
pub proof fn lemma_same_side_symmetric(
    a: PrimitivePoint,
    b: PrimitivePoint,
    c: PrimitivePoint,
    x: int,
    y: int,
)
    ensures
        same_side(b, a, c, x, y) == same_side(a, b, c, x, y),
        same_side(a, c, b, x, y) == same_side(a, b, c, x, y),
        same_side(c, b, a, x, y) == same_side(a, b, c, x, y),
{
    lemma_edge_reversed(a, b, x, y);
    lemma_edge_reversed(b, c, x, y);
    lemma_edge_reversed(c, a, x, y);
}

/// The three edge functions of a triangle add up to its orientation
/// determinant, wherever they are taken.
pub proof fn lemma_edges_sum(a: PrimitivePoint, b: PrimitivePoint, c: PrimitivePoint, x: int, y: int)
    ensures
        spec_edge(b, c, x, y) + spec_edge(c, a, x, y) + spec_edge(a, b, x, y) == spec_orient_2d(
            a,
            b,
            c,
        ),
{
    lemma_difference_product(c.x as int, b.x as int, y, b.y as int);
    lemma_difference_product(c.y as int, b.y as int, x, b.x as int);
    lemma_difference_product(a.x as int, c.x as int, y, c.y as int);
    lemma_difference_product(a.y as int, c.y as int, x, c.x as int);
    lemma_difference_product(b.x as int, a.x as int, y, a.y as int);
    lemma_difference_product(b.y as int, a.y as int, x, a.x as int);
    lemma_difference_product(b.x as int, a.x as int, c.y as int, a.y as int);
    lemma_difference_product(b.y as int, a.y as int, c.x as int, a.x as int);
    lemma_products_commute(c.x as int, b.y as int);
    lemma_products_commute(b.x as int, a.y as int);
    lemma_products_commute(a.x as int, c.y as int);
    lemma_products_commute(c.x as int, y);
    lemma_products_commute(b.x as int, y);
    lemma_products_commute(a.x as int, y);
    lemma_products_commute(c.y as int, x);
    lemma_products_commute(b.y as int, x);
    lemma_products_commute(a.y as int, x);
    lemma_products_commute(a.x as int, a.y as int);
    lemma_products_commute(b.x as int, b.y as int);
    lemma_products_commute(c.x as int, c.y as int);
    lemma_products_commute(b.x as int, c.y as int);
    lemma_products_commute(a.x as int, b.y as int);
    lemma_products_commute(c.x as int, a.y as int);
}

/// `(p - q) (r - s)` multiplied out.
pub proof fn lemma_difference_product(p: int, q: int, r: int, s: int)
    ensures
        (p - q) * (r - s) == p * r - p * s - q * r + q * s,
{
    assert((p - q) * (r - s) == p * r - p * s - q * r + q * s) by (nonlinear_arith);
}

proof fn lemma_products_commute(p: int, q: int)
    ensures
        p * q == q * p,
{
    assert(p * q == q * p) by (nonlinear_arith);
}

/// Whether `a` comes before `b` in the order by which a triangle's vertices
/// are arranged for the sign test: larger `x` first, then smaller `y`.
pub open spec fn spec_precedes(a: PrimitivePoint, b: PrimitivePoint) -> bool {
    a.x > b.x || (a.x == b.x && a.y <= b.y)
}

fn precedes(a: PrimitivePoint, b: PrimitivePoint) -> (first: bool)
    ensures
        first == spec_precedes(a, b),
{
    a.x > b.x || (a.x == b.x && a.y <= b.y)
}

/// One single change of a triangle: the vertex that moves, with the noise
/// along `x` and along `y` that was drawn for it.
#[derive(Debug, Copy, Clone, PartialEq, Eq, Structural)]
pub enum TriangleChange {
    First(i32, i32),
    Second(i32, i32),
    Third(i32, i32),
}

impl TriangleChange {
    /// The index of the vertex that moves.
    pub open spec fn spec_vertex(&self) -> int {
        match self {
            TriangleChange::First(_, _) => 0,
            TriangleChange::Second(_, _) => 1,
            TriangleChange::Third(_, _) => 2,
        }
    }

    /// The noise along `x`.
    pub open spec fn spec_dx(&self) -> i32 {
        match self {
            TriangleChange::First(dx, _) => *dx,
            TriangleChange::Second(dx, _) => *dx,
            TriangleChange::Third(dx, _) => *dx,
        }
    }

    /// The noise along `y`.
    pub open spec fn spec_dy(&self) -> i32 {
        match self {
            TriangleChange::First(_, dy) => *dy,
            TriangleChange::Second(_, dy) => *dy,
            TriangleChange::Third(_, dy) => *dy,
        }
    }
}

/// A triangle of one colour.
#[derive(Debug, Copy, Clone, PartialEq, Eq)]
pub struct Triangle {
    pub color: Color,
    pub path: [PrimitivePoint; 3],
}

impl Triangle {
    /// The triangle with the given vertices, in black at the fitted alpha.
    pub fn new(p0: PrimitivePoint, p1: PrimitivePoint, p2: PrimitivePoint) -> (t: Triangle)
        ensures
            t.path[0] == p0,
            t.path[1] == p1,
            t.path[2] == p2,
            t.color == (Color { r: 0, g: 0, b: 0, a: 128 }),
    {
        Triangle { color: Color { r: 0, g: 0, b: 0, a: 128 }, path: [p0, p1, p2] }
    }

    /// A triangle is valid when no two of its vertices are equal and each of
    /// its three angles is wider than 15 degrees.
    pub open spec fn spec_is_valid(&self) -> bool {
        let p0 = self.path[0];
        let p1 = self.path[1];
        let p2 = self.path[2];
        p0 != p1 && p0 != p2 && p1 != p2 && p0.spec_angle_exceeds_minimum(p1, p2)
            && p1.spec_angle_exceeds_minimum(p2, p0) && p2.spec_angle_exceeds_minimum(p0, p1)
    }

    pub fn is_valid(&self) -> (valid: bool)
        ensures
            valid == self.spec_is_valid(),
    {
        let p0 = self.path[0];
        let p1 = self.path[1];
        let p2 = self.path[2];
        if p0 == p1 || p0 == p2 || p1 == p2 {
            false
        } else {
            p0.angle_exceeds_minimum(p1, p2) && p1.angle_exceeds_minimum(p2, p0)
                && p2.angle_exceeds_minimum(p0, p1)
        }
    }

    /// Whether the triangle covers the pixel `(x, y)`: its three edge
    /// functions agree in sign there, so that the edges belong to it.
    pub open spec fn spec_contains_pixel(&self, x: int, y: int) -> bool {
        same_side(self.path[0], self.path[1], self.path[2], x, y)
    }

    /// Decides the sign test on the vertices arranged by `spec_precedes`;
    /// the arrangement does not change what it finds.
    pub fn contains_pixel(&self, x: i32, y: i32) -> (inside: bool)
        ensures
            inside == self.spec_contains_pixel(x as int, y as int),
    {
        let p = PrimitivePoint::new(x, y);
        let mut a = self.path[0];
        let mut b = self.path[1];
        let mut c = self.path[2];
        if !precedes(a, b) {
            proof {
                lemma_same_side_symmetric(a, b, c, x as int, y as int);
            }
            let t = a;
            a = b;
            b = t;
        }
        if !precedes(b, c) {
            proof {
                lemma_same_side_symmetric(a, b, c, x as int, y as int);
            }
            let t = b;
            b = c;
            c = t;
        }
        if !precedes(a, b) {
            proof {
                lemma_same_side_symmetric(a, b, c, x as int, y as int);
            }
            let t = a;
            a = b;
            b = t;
        }
        assert(spec_precedes(a, b) && spec_precedes(b, c));
        let w0: i128 = orient_2d(b, c, p);
        let w1: i128 = orient_2d(c, a, p);
        let w2: i128 = orient_2d(a, b, p);
        (w0 >= 0 && w1 >= 0 && w2 >= 0) || (w0 <= 0 && w1 <= 0 && w2 <= 0)
    }

    pub open spec fn spec_min_x(&self) -> int {
        spec_min3(self.path[0].x as int, self.path[1].x as int, self.path[2].x as int)
    }

    pub open spec fn spec_min_y(&self) -> int {
        spec_min3(self.path[0].y as int, self.path[1].y as int, self.path[2].y as int)
    }

    pub open spec fn spec_max_x(&self) -> int {
        spec_max3(self.path[0].x as int, self.path[1].x as int, self.path[2].x as int)
    }

    pub open spec fn spec_max_y(&self) -> int {
        spec_max3(self.path[0].y as int, self.path[1].y as int, self.path[2].y as int)
    }

    /// The corners of the smallest upright box around the vertices: first
    /// the one of least coordinates, then the one of greatest.
    pub fn bounding_box(&self) -> (corners: [PrimitivePoint; 2])
        ensures
            corners[0].x == self.spec_min_x(),
            corners[0].y == self.spec_min_y(),
            corners[1].x == self.spec_max_x(),
            corners[1].y == self.spec_max_y(),
    {
        let p0 = self.path[0];
        let p1 = self.path[1];
        let p2 = self.path[2];
        [
            PrimitivePoint::new(min3(p0.x, p1.x, p2.x), min3(p0.y, p1.y, p2.y)),
            PrimitivePoint::new(max3(p0.x, p1.x, p2.x), max3(p0.y, p1.y, p2.y)),
        ]
    }

    /// The test that decides which cells of the bounding box are covered.
    pub open spec fn covers(&self) -> spec_fn(int, int) -> bool {
        sign_test(self.path[0], self.path[1], self.path[2])
    }

    /// The covered pixels: the cells of the bounding box that pass the sign
    /// test, column by column from the left, each column from the top.
    pub open spec fn spec_pixels(&self) -> Seq<PrimitivePoint> {
        box_scan(
            self.spec_min_x(),
            self.spec_min_y(),
            self.spec_max_x() - self.spec_min_x() + 1,
            self.spec_max_y() - self.spec_min_y() + 1,
            self.covers(),
            own_place(),
        )
    }

    pub fn get_pixels(&self) -> (pixels: Vec<PrimitivePoint>)
        ensures
            pixels@ == self.spec_pixels(),
    {
        let corners = self.bounding_box();
        let min_x: i64 = corners[0].x as i64;
        let min_y: i64 = corners[0].y as i64;
        let columns: i64 = corners[1].x as i64 - min_x + 1;
        let rows: i64 = corners[1].y as i64 - min_y + 1;
        let ghost keep = self.covers();
        let ghost place = own_place();
        let mut pixels: Vec<PrimitivePoint> = Vec::new();
        let mut column: i64 = 0;
        while column < columns
            invariant
                0 <= column <= columns,
                0 < rows,
                i32::MIN <= min_x,
                min_x + columns - 1 <= i32::MAX,
                i32::MIN <= min_y,
                min_y + rows - 1 <= i32::MAX,
                keep == self.covers(),
                place == own_place(),
                pixels@ == box_scan(min_x as int, min_y as int, column as int, rows as int, keep, place),
            decreases columns - column,
        {
            let x: i32 = (min_x + column) as i32;
            let ghost left = pixels@;
            let mut row: i64 = 0;
            while row < rows
                invariant
                    0 <= row <= rows,
                    x == min_x + column,
                    i32::MIN <= min_y,
                    min_y + rows - 1 <= i32::MAX,
                    keep == self.covers(),
                    place == own_place(),
                    pixels@ == left + column_scan(x as int, min_y as int, row as int, keep, place),
                decreases rows - row,
            {
                let y: i32 = (min_y + row) as i32;
                let ghost above = column_scan(x as int, min_y as int, row as int, keep, place);
                if self.contains_pixel(x, y) {
                    pixels.push(PrimitivePoint::new(x, y));
                    assert(pixels@ == left + above.push(pixel_at(x as int, y as int)));
                }
                row += 1;
            }
            column += 1;
        }
        pixels
    }

    /// This triangle painted over `image`.
    pub fn paint_on(&self, image: &Canvas) -> (out: Canvas)
        ensures
            out.same_size(image),
            out@ == painted(
                image@,
                image.spec_width() as int,
                image.spec_height() as int,
                self.spec_pixels(),
                self.color,
            ),
    {
        let pixels = self.get_pixels();
        image.paint(&pixels, self.color)
    }

    /// Gives the triangle the mean colour that the session's target has
    /// under it.
    pub fn set_color_using(&mut self, image: &PrimitiveImage)
        ensures
            final(self).path == old(self).path,
            final(self).color == mean_color(
                colors_at(
                    image.spec_target()@,
                    image.spec_target().spec_width() as int,
                    image.spec_target().spec_height() as int,
                    old(self).spec_pixels(),
                ),
            ),
    {
        let pixels = self.get_pixels();
        self.color = image.target().average_color_at(&pixels);
    }

    /// This triangle with every coordinate multiplied by `factor`.
    pub open spec fn spec_scaled(&self, factor: Ratio) -> Triangle {
        Triangle {
            color: self.color,
            path: [
                factor.spec_scale_point(self.path[0]),
                factor.spec_scale_point(self.path[1]),
                factor.spec_scale_point(self.path[2]),
            ],
        }
    }

    pub fn scaled(&self, factor: &Ratio) -> (t: Triangle)
        requires
            factor.wf(),
        ensures
            t == self.spec_scaled(*factor),
    {
        let t = Triangle {
            color: self.color,
            path: [
                factor.scale_point(self.path[0]),
                factor.scale_point(self.path[1]),
                factor.scale_point(self.path[2]),
            ],
        };
        assert(t.path =~= self.spec_scaled(*factor).path);
        t
    }

    /// This triangle, scaled by `factor`, painted over `image`.
    pub fn scaled_paint_on(&self, image: &Canvas, factor: &Ratio) -> (out: Canvas)
        requires
            factor.wf(),
        ensures
            out.same_size(image),
            out@ == painted(
                image@,
                image.spec_width() as int,
                image.spec_height() as int,
                self.spec_scaled(*factor).spec_pixels(),
                self.color,
            ),
    {
        self.scaled(factor).paint_on(image)
    }

    /// This triangle with vertex `which` put at `p`.
    pub open spec fn spec_with_vertex(self, which: int, p: PrimitivePoint) -> Triangle {
        Triangle {
            color: self.color,
            path: if which == 0 {
                [p, self.path[1], self.path[2]]
            } else if which == 1 {
                [self.path[0], p, self.path[2]]
            } else {
                [self.path[0], self.path[1], p]
            },
        }
    }
}

/// For three vectors in the plane, the cross products of the pairs, each
/// weighted by a coordinate of the third, cancel.
proof fn lemma_cross_weights_cancel(ax: int, ay: int, bx: int, by: int, cx: int, cy: int)
    ensures
        (bx * cy - by * cx) * ax + (cx * ay - cy * ax) * bx + (ax * by - ay * bx) * cx == 0,
        (bx * cy - by * cx) * ay + (cx * ay - cy * ax) * by + (ax * by - ay * bx) * cy == 0,
{
    assert((bx * cy - by * cx) * ax + (cx * ay - cy * ax) * bx + (ax * by - ay * bx) * cx == 0)
        by (nonlinear_arith);
    assert((bx * cy - by * cx) * ay + (cx * ay - cy * ax) * by + (ax * by - ay * bx) * cy == 0)
        by (nonlinear_arith);
}

/// The edge function seen from the point at which it is taken.
proof fn lemma_edge_from_point(a: PrimitivePoint, b: PrimitivePoint, x: int, y: int)
    ensures
        spec_edge(a, b, x, y) == (a.x - x) * (b.y - y) - (a.y - y) * (b.x - x),
{
    assert((b.x - a.x) * (y - a.y) - (b.y - a.y) * (x - a.x) == (a.x - x) * (b.y - y) - (a.y - y)
        * (b.x - x)) by (nonlinear_arith);
}

proof fn lemma_weighted_sign(w: int, d: int)
    ensures
        w >= 0 && d < 0 ==> w * d <= 0,
        w > 0 && d < 0 ==> w * d < 0,
        w >= 0 && d > 0 ==> w * d >= 0,
        w > 0 && d > 0 ==> w * d > 0,
        w <= 0 && d < 0 ==> w * d >= 0,
        w < 0 && d < 0 ==> w * d > 0,
        w <= 0 && d > 0 ==> w * d <= 0,
        w < 0 && d > 0 ==> w * d < 0,
{
    assert(w >= 0 && d < 0 ==> w * d <= 0) by (nonlinear_arith);
    assert(w > 0 && d < 0 ==> w * d < 0) by (nonlinear_arith);
    assert(w >= 0 && d > 0 ==> w * d >= 0) by (nonlinear_arith);
    assert(w > 0 && d > 0 ==> w * d > 0) by (nonlinear_arith);
    assert(w <= 0 && d < 0 ==> w * d >= 0) by (nonlinear_arith);
    assert(w < 0 && d < 0 ==> w * d > 0) by (nonlinear_arith);
    assert(w <= 0 && d > 0 ==> w * d <= 0) by (nonlinear_arith);
    assert(w < 0 && d > 0 ==> w * d < 0) by (nonlinear_arith);
}

/// Three offsets on one strict side of zero, weighted by numbers of one sign
/// that are not all zero, cannot cancel.
proof fn lemma_no_cancellation(w0: int, w1: int, w2: int, d0: int, d1: int, d2: int)
    requires
        (w0 >= 0 && w1 >= 0 && w2 >= 0) || (w0 <= 0 && w1 <= 0 && w2 <= 0),
        w0 + w1 + w2 != 0,
        (d0 < 0 && d1 < 0 && d2 < 0) || (d0 > 0 && d1 > 0 && d2 > 0),
    ensures
        w0 * d0 + w1 * d1 + w2 * d2 != 0,
{
    lemma_weighted_sign(w0, d0);
    lemma_weighted_sign(w1, d1);
    lemma_weighted_sign(w2, d2);
}

/// A point that passes the sign test of a triangle of non-zero area lies in
/// the triangle's bounding box.
pub proof fn lemma_covered_in_box(t: Triangle, x: int, y: int)
    requires
        spec_orient_2d(t.path[0], t.path[1], t.path[2]) != 0,
        t.spec_contains_pixel(x, y),
    ensures
        t.spec_min_x() <= x <= t.spec_max_x(),
        t.spec_min_y() <= y <= t.spec_max_y(),
{
    let a = t.path[0];
    let b = t.path[1];
    let c = t.path[2];
    let w0 = spec_edge(b, c, x, y);
    let w1 = spec_edge(c, a, x, y);
    let w2 = spec_edge(a, b, x, y);
    lemma_edges_sum(a, b, c, x, y);
    lemma_edge_from_point(b, c, x, y);
    lemma_edge_from_point(c, a, x, y);
    lemma_edge_from_point(a, b, x, y);
    lemma_cross_weights_cancel(a.x - x, a.y - y, b.x - x, b.y - y, c.x - x, c.y - y);
    if x < t.spec_min_x() || x > t.spec_max_x() {
        lemma_no_cancellation(w0, w1, w2, a.x - x, b.x - x, c.x - x);
    }
    if y < t.spec_min_y() || y > t.spec_max_y() {
        lemma_no_cancellation(w0, w1, w2, a.y - y, b.y - y, c.y - y);
    }
}

/// The dot products at two vertices of a triangle add up to the squared
/// length of the side between them.
proof fn lemma_dots_sum(p0: PrimitivePoint, p1: PrimitivePoint, p2: PrimitivePoint)
    ensures
        spec_dot(p0, p1, p2) + spec_dot(p1, p2, p0) == (p1.x - p0.x) * (p1.x - p0.x) + (p1.y
            - p0.y) * (p1.y - p0.y),
        spec_cross(p1, p2, p0) == spec_cross(p0, p1, p2),
        spec_cross(p2, p0, p1) == spec_cross(p0, p1, p2),
{
    let ux = p1.x - p0.x;
    let uy = p1.y - p0.y;
    let vx = p2.x - p0.x;
    let vy = p2.y - p0.y;
    assert(ux * vx + uy * vy + ((vx - ux) * (-ux) + (vy - uy) * (-uy)) == ux * ux + uy * uy)
        by (nonlinear_arith);
    assert((vx - ux) * (-uy) - (vy - uy) * (-ux) == ux * vy - uy * vx) by (nonlinear_arith);
    assert((-vx) * (uy - vy) - (-vy) * (ux - vx) == ux * vy - uy * vx) by (nonlinear_arith);
}

/// At a vertex where the two sides point the same way along one line, the
/// angle is not wider than 15 degrees.
proof fn lemma_flat_angle(v: PrimitivePoint, p2: PrimitivePoint, p3: PrimitivePoint)
    requires
        spec_cross(v, p2, p3) == 0,
        spec_dot(v, p2, p3) > 0,
    ensures
        !v.spec_angle_exceeds_minimum(p2, p3),
{
    let d = spec_dot(v, p2, p3);
    assert((2 * d) * (2 * d) >= 3 * d * d) by (nonlinear_arith)
        requires
            d > 0,
    ;
}

/// A valid triangle has an area: its vertices do not lie on one line.
pub proof fn lemma_valid_has_area(t: Triangle)
    requires
        t.spec_is_valid(),
    ensures
        spec_orient_2d(t.path[0], t.path[1], t.path[2]) != 0,
{
    let p0 = t.path[0];
    let p1 = t.path[1];
    let p2 = t.path[2];
    if spec_orient_2d(p0, p1, p2) == 0 {
        lemma_dots_sum(p0, p1, p2);
        let ux = p1.x - p0.x;
        let uy = p1.y - p0.y;
        assert(ux * ux + uy * uy > 0) by (nonlinear_arith)
            requires
                ux != 0 || uy != 0,
        ;
        if spec_dot(p0, p1, p2) > 0 {
            lemma_flat_angle(p0, p1, p2);
        } else {
            lemma_flat_angle(p1, p2, p0);
        }
    }
}

/// The pixels of a valid triangle are exactly the integer points at which
/// its three edge functions agree in sign, zero agreeing with either sign.
pub proof fn lemma_pixels_exact(t: Triangle, p: PrimitivePoint)
    requires
        t.spec_is_valid(),
    ensures
        t.spec_pixels().contains(p) <==> t.spec_contains_pixel(p.x as int, p.y as int),
{
    lemma_valid_has_area(t);
    lemma_box_scan_members(
        t.spec_min_x(),
        t.spec_min_y(),
        t.spec_max_x() - t.spec_min_x() + 1,
        t.spec_max_y() - t.spec_min_y() + 1,
        t.covers(),
        p,
    );
    if t.spec_contains_pixel(p.x as int, p.y as int) {
        lemma_covered_in_box(t, p.x as int, p.y as int);
    }
}

impl Triangle {
    pub fn with_vertex(self, which: usize, p: PrimitivePoint) -> (t: Triangle)
        requires
            which < 3,
        ensures
            t == self.spec_with_vertex(which as int, p),
    {
        let mut path = self.path;
        path[which] = p;
        let t = Triangle { color: self.color, path };
        assert(t.path =~= self.spec_with_vertex(which as int, p).path);
        t
    }

    /// Whether every vertex lies on the canvas or within `border` pixels of
    /// it.
    pub open spec fn spec_near_canvas(&self, width: int, height: int, border: int) -> bool {
        forall|i: int| 0 <= i < 3 ==> (#[trigger] self.path[i]).spec_near_canvas(width, height, border)
    }

    /// The triangle after `change` on a `width` by `height` canvas: one
    /// vertex moved as a point is, the other two as they were.
    pub open spec fn spec_changed(self, change: TriangleChange, width: int, height: int) -> Triangle {
        let which = change.spec_vertex();
        self.spec_with_vertex(
            which,
            self.path[which].spec_displaced(
                change.spec_dx() as int,
                change.spec_dy() as int,
                width,
                height,
            ),
        )
    }

    pub fn changed(self, change: TriangleChange, width: u32, height: u32) -> (t: Triangle)
        ensures
            t == self.spec_changed(change, width as int, height as int),
            t.color == self.color,
            forall|i: int|
                0 <= i < 3 ==> t.path[i] == self.path[i] || (#[trigger] t.path[i]).spec_near_canvas(
                    width as int,
                    height as int,
                    MUTATION_BORDER as int,
                ),
    {
        let (which, dx, dy): (usize, i32, i32) = match change {
            TriangleChange::First(dx, dy) => (0, dx, dy),
            TriangleChange::Second(dx, dy) => (1, dx, dy),
            TriangleChange::Third(dx, dy) => (2, dx, dy),
        };
        self.with_vertex(which, self.path[which].displaced(dx, dy, width, height))
    }

    /// What one change on a `width` by `height` canvas can make of `before`:
    /// `before` after some change.
    pub open spec fn spec_mutation_of(&self, before: Triangle, width: int, height: int) -> bool {
        exists|change: TriangleChange| *self == #[trigger] before.spec_changed(change, width, height)
    }

    /// Whether `self` comes from `before` by `failures` single changes on a
    /// `width` by `height` canvas, one after the other, of which none gave a
    /// valid shape.
    pub open spec fn spec_failed_from(
        &self,
        before: Triangle,
        width: int,
        height: int,
        failures: nat,
    ) -> bool
        decreases failures,
    {
        if failures == 0 {
            *self == before
        } else {
            exists|mid: Triangle|
                mid.spec_failed_from(before, width, height, (failures - 1) as nat)
                    && #[trigger] self.spec_mutation_of(mid, width, height) && !self.spec_is_valid()
        }
    }

    /// Whether `self` is what a mutation on a `width` by `height` canvas can
    /// make of `before`: one more single change after a run of changes that
    /// all failed, the run no longer than the attempts allow. A mutation
    /// returns the first valid shape that its changes give.
    pub open spec fn spec_mutated_from(&self, before: Triangle, width: int, height: int) -> bool {
        exists|mid: Triangle, failures: nat|
            failures <= MAXIMUM_MUTATION_ATTEMPTS && #[trigger] mid.spec_failed_from(
                before,
                width,
                height,
                failures,
            ) && self.spec_mutation_of(mid, width, height)
    }

    /// Whether a mutation of `self` on a `width` by `height` canvas can give
    /// up: there is a run of single changes from it that all failed and that
    /// is one longer than `MAXIMUM_MUTATION_ATTEMPTS`.
    pub open spec fn spec_exhausted(&self, width: int, height: int) -> bool {
        exists|last: Triangle|
            #[trigger] last.spec_failed_from(
                *self,
                width,
                height,
                (MAXIMUM_MUTATION_ATTEMPTS + 1) as nat,
            )
    }

    /// Draws one change: which vertex by a draw from `rng`, then two draws
    /// of `noise`, the first for `x` and the second for `y`.
    pub fn draw_change<N: Fn(&mut StdRng) -> i32>(rng: &mut StdRng, noise: &N) -> (change:
        TriangleChange)
        requires
            forall|g: &mut StdRng| call_requires(noise, (g,)),
    {
        let which: i32 = uniform_i32(rng, 0, 3);
        let dx: i32 = noise(rng);
        let dy: i32 = noise(rng);
        if which == 0 {
            TriangleChange::First(dx, dy)
        } else if which == 1 {
            TriangleChange::Second(dx, dy)
        } else {
            TriangleChange::Third(dx, dy)
        }
    }

    /// Moves one vertex at a time, each change on top of the last, until the
    /// triangle is valid. Gives up, leaving the triangle as it was, when the
    /// attempt after `MAXIMUM_MUTATION_ATTEMPTS` failures fails too.
    pub fn mutate<N: Fn(&mut StdRng) -> i32>(
        &mut self,
        width: u32,
        height: u32,
        rng: &mut StdRng,
        noise: &N,
    ) -> (res: Result<(), ShapeError>)
        requires
            forall|g: &mut StdRng| call_requires(noise, (g,)),
        ensures
            final(self).color == old(self).color,
            res is Ok ==> final(self).spec_is_valid(),
            res is Ok ==> final(self).spec_mutated_from(*old(self), width as int, height as int),
            forall|i: int|
                0 <= i < 3 ==> final(self).path[i] == old(self).path[i] || (
                #[trigger] final(self).path[i]).spec_near_canvas(
                    width as int,
                    height as int,
                    MUTATION_BORDER as int,
                ),
            res is Err ==> *final(self) == *old(self),
            res is Err ==> old(self).spec_exhausted(width as int, height as int),
    {
        let mut candidate = *self;
        let mut failures: u32 = 0;
        loop
            invariant
                failures <= MAXIMUM_MUTATION_ATTEMPTS,
                forall|g: &mut StdRng| call_requires(noise, (g,)),
                candidate.color == self.color,
                *self == *old(self),
                candidate.spec_failed_from(*self, width as int, height as int, failures as nat),
                forall|i: int|
                    0 <= i < 3 ==> candidate.path[i] == self.path[i] || (
                    #[trigger] candidate.path[i]).spec_near_canvas(
                        width as int,
                        height as int,
                        MUTATION_BORDER as int,
                    ),
            decreases MAXIMUM_MUTATION_ATTEMPTS - failures,
        {
            let change = Self::draw_change(rng, noise);
            let next = candidate.changed(change, width, height);
            assert(next.spec_mutation_of(candidate, width as int, height as int));
            match after_change(next.is_valid(), failures) {
                Retry::Done => {
                    *self = next;
                    return Ok(());
                },
                Retry::GiveUp => {
                    assert(next.spec_failed_from(
                        *self,
                        width as int,
                        height as int,
                        (failures + 1) as nat,
                    ));
                    return Err(ShapeError::GenerationExhausted);
                },
                Retry::Again => {
                    candidate = next;
                    failures += 1;
                },
            }
        }
    }

    /// Whether the triangle is one that generation starts from: black at the
    /// fitted alpha, its first vertex on the canvas and the other two within
    /// `border_extension` of the first.
    pub open spec fn spec_fresh(&self, width: int, height: int, border_extension: int) -> bool {
        &&& self.color == (Color { r: 0, g: 0, b: 0, a: 128 })
        &&& self.path[0].spec_on_canvas(width, height)
        &&& self.path[1].spec_in_radius(self.path[0], border_extension)
        &&& self.path[2].spec_in_radius(self.path[0], border_extension)
    }

    /// A random valid triangle: a vertex drawn from the canvas, two more
    /// drawn within `border_extension` of it, and then one mutation.
    pub fn random<N: Fn(&mut StdRng) -> i32>(
        width: u32,
        height: u32,
        border_extension: i32,
        rng: &mut StdRng,
        noise: &N,
    ) -> (res: Result<Triangle, ShapeError>)
        requires
            0 < width,
            0 < height,
            1 <= border_extension,
            width + border_extension <= i32::MAX,
            height + border_extension <= i32::MAX,
            forall|g: &mut StdRng| call_requires(noise, (g,)),
        ensures
            res is Ok ==> exists|fresh: Triangle|
                fresh.spec_fresh(width as int, height as int, border_extension as int)
                    && #[trigger] (res->Ok_0).spec_mutated_from(
                    fresh,
                    width as int,
                    height as int,
                ),
            res is Err ==> exists|fresh: Triangle|
                fresh.spec_fresh(width as int, height as int, border_extension as int)
                    && #[trigger] fresh.spec_exhausted(
                    width as int,
                    height as int,
                ),
            res matches Ok(t) ==> t.spec_is_valid() && t.color == (Color { r: 0, g: 0, b: 0, a: 128 })
                && t.spec_near_canvas(
                width as int,
                height as int,
                spec_larger(border_extension as int, MUTATION_BORDER as int),
            ),
    {
        let p0 = PrimitivePoint::random_point(width, height, rng);
        let p1 = p0.random_point_in_radius(border_extension, rng);
        let p2 = p0.random_point_in_radius(border_extension, rng);
        let mut tri = Triangle::new(p0, p1, p2);
        let ghost fresh = tri;
        match tri.mutate(width, height, rng, noise) {
            Ok(()) => {
                proof {
                    let out: Result<Triangle, ShapeError> = Ok(tri);
                    assert(fresh.spec_fresh(width as int, height as int, border_extension as int)
                        && (out->Ok_0).spec_mutated_from(
                        fresh,
                        width as int,
                        height as int,
                    ));
                }
                Ok(tri)
            },
            Err(e) => {
                proof {
                    assert(fresh.spec_fresh(width as int, height as int, border_extension as int)
                        && fresh.spec_exhausted(
                        width as int,
                        height as int,
                    ));
                }
                Err(e)
            },
        }
    }
}

} // verus!
