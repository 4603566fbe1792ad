use crate::point::PrimitivePoint;
use image::Pixel;
use image::Rgba;
use vstd::prelude::*;

verus! {

/// The alpha that every fitted colour carries.
pub const FITTED_ALPHA: u8 = 128;

/// An 8-bit RGBA colour.
#[derive(Debug, Copy, Clone, PartialEq, Eq, Structural)]
pub struct Color {
    pub r: u8,
    pub g: u8,
    pub b: u8,
    pub a: u8,
}

impl View for Color {
    type V = Seq<u8>;

    /// The four channels in the order red, green, blue, alpha.
    open spec fn view(&self) -> Seq<u8> {
        seq![self.r, self.g, self.b, self.a]
    }
}

/// What `image`'s `Pixel::blend` leaves in a background `Rgba<u8>` pixel after
/// blending a foreground pixel into it, both given by their four channels.
pub uninterp spec fn blended(background: Seq<u8>, foreground: Seq<u8>) -> Seq<u8>;

/// `Pixel::blend` of `image` on `Rgba<u8>`: source-over compositing, worked
/// out by the outside crate in single-precision arithmetic. The contract
/// only gives the result its name.
#[verifier::external_body]
pub(crate) fn blend(background: Color, foreground: Color) -> (out: Color)
    ensures
        out@ == blended(background@, foreground@),
{
    let mut pixel = Rgba([background.r, background.g, background.b, background.a]);
    pixel.blend(&Rgba([foreground.r, foreground.g, foreground.b, foreground.a]));
    Color { r: pixel.0[0], g: pixel.0[1], b: pixel.0[2], a: pixel.0[3] }
}

impl Color {
    pub fn new(r: u8, g: u8, b: u8, a: u8) -> (c: Color)
        ensures
            c == (Color { r, g, b, a }),
    {
        Color { r, g, b, a }
    }

    /// This colour with its alpha replaced.
    pub open spec fn spec_with_alpha(self, alpha: u8) -> Color {
        Color { r: self.r, g: self.g, b: self.b, a: alpha }
    }

    pub fn with_alpha(self, alpha: u8) -> (c: Color)
        ensures
            c == self.spec_with_alpha(alpha),
    {
        Color { r: self.r, g: self.g, b: self.b, a: alpha }
    }

    /// The colour of a canvas pixel `self` after `paint` went over it: the
    /// pixel is taken as opaque for the blend, and keeps its own alpha.
    pub open spec fn spec_painted_with(self, paint: Color) -> Color {
        let mixed = blended(self.spec_with_alpha(255)@, paint@);
        Color { r: mixed[0], g: mixed[1], b: mixed[2], a: self.a }
    }

    pub fn painted_with(self, paint: Color) -> (c: Color)
        ensures
            c == self.spec_painted_with(paint),
    {
        let mixed = blend(self.with_alpha(255), paint);
        assert(mixed@[0] == mixed.r && mixed@[1] == mixed.g && mixed@[2] == mixed.b);
        mixed.with_alpha(self.a)
    }
}

/// The sum of channel `k` (0 red, 1 green, 2 blue, 3 alpha) over `colors`.
pub open spec fn channel_sum(colors: Seq<Color>, k: int) -> int
    decreases colors.len(),
{
    if colors.len() == 0 {
        0
    } else {
        channel_sum(colors.drop_last(), k) + colors.last()@[k]
    }
}

/// The mean colour of `colors`: each of red, green and blue is the sum of the
/// channel divided by the count, rounded down, and alpha is `FITTED_ALPHA`.
/// Of no colours it is transparent black.
pub open spec fn mean_color(colors: Seq<Color>) -> Color {
    if colors.len() == 0 {
        Color { r: 0, g: 0, b: 0, a: 0 }
    } else {
        Color {
            r: (channel_sum(colors, 0) / colors.len() as int) as u8,
            g: (channel_sum(colors, 1) / colors.len() as int) as u8,
            b: (channel_sum(colors, 2) / colors.len() as int) as u8,
            a: FITTED_ALPHA,
        }
    }
}

/// The squared distance of two colours over all four channels.
pub open spec fn color_distance(p: Color, q: Color) -> int {
    (p.r - q.r) * (p.r - q.r) + (p.g - q.g) * (p.g - q.g) + (p.b - q.b) * (p.b - q.b) + (p.a
        - q.a) * (p.a - q.a)
}

/// The sum of `color_distance` over the pixels that `a` and `b` share. The
/// root-mean-square error of two buffers of `n` pixels is the square root of
/// this sum over `4 * n`, and so orders pairs of buffers as this sum does.
pub open spec fn squared_error_sum(a: Seq<Color>, b: Seq<Color>) -> int
    decreases a.len(),
{
    if a.len() == 0 || b.len() < a.len() {
        0
    } else {
        squared_error_sum(a.drop_last(), b.take(a.len() - 1)) + color_distance(
            a.last(),
            b[a.len() - 1],
        )
    }
}

/// Whether `p` names a pixel of a `width` by `height` buffer.
pub open spec fn in_bounds(p: PrimitivePoint, width: int, height: int) -> bool {
    0 <= p.x < width && 0 <= p.y < height
}

/// The place of pixel `p` in a row-major buffer of the given `width`.
pub open spec fn pixel_index(p: PrimitivePoint, width: int) -> int {
    p.y * width + p.x
}

/// The pixels of a `width` by `height` buffer after `color` was painted at
/// each of `points` in turn. A point outside the buffer is passed over; one
/// that occurs twice is painted twice.
pub open spec fn painted(
    pixels: Seq<Color>,
    width: int,
    height: int,
    points: Seq<PrimitivePoint>,
    color: Color,
) -> Seq<Color>
    decreases points.len(),
{
    if points.len() == 0 {
        pixels
    } else {
        let before = painted(pixels, width, height, points.drop_last(), color);
        let p = points.last();
        if in_bounds(p, width, height) {
            before.update(
                pixel_index(p, width),
                before[pixel_index(p, width)].spec_painted_with(color),
            )
        } else {
            before
        }
    }
}

/// The colours that a `width` by `height` buffer holds at those of `points`
/// that lie inside it, in the order of `points`.
pub open spec fn colors_at(
    pixels: Seq<Color>,
    width: int,
    height: int,
    points: Seq<PrimitivePoint>,
) -> Seq<Color>
    decreases points.len(),
{
    if points.len() == 0 {
        Seq::empty()
    } else {
        let before = colors_at(pixels, width, height, points.drop_last());
        let p = points.last();
        if in_bounds(p, width, height) {
            before.push(pixels[pixel_index(p, width)])
        } else {
            before
        }
    }
}

proof fn lemma_index_in_range(x: int, y: int, width: int, height: int)
    requires
        0 <= x < width,
        0 <= y < height,
    ensures
        0 <= y * width + x < width * height,
        0 <= y * width <= y * width + x,
{
    assert(y * width <= (height - 1) * width) by (nonlinear_arith)
        requires
            0 <= y <= height - 1,
            0 <= width,
    ;
    assert((height - 1) * width == width * height - width) by (nonlinear_arith);
    assert(0 <= y * width) by (nonlinear_arith)
        requires
            0 <= y,
            0 <= width,
    ;
}

proof fn lemma_color_distance_bounds(p: Color, q: Color)
    ensures
        0 <= color_distance(p, q) <= 260100,
{
    lemma_square_bounds(p.r - q.r);
    lemma_square_bounds(p.g - q.g);
    lemma_square_bounds(p.b - q.b);
    lemma_square_bounds(p.a - q.a);
}

proof fn lemma_square_bounds(d: int)
    requires
        -255 <= d <= 255,
    ensures
        0 <= d * d <= 65025,
{
    assert(0 <= d * d <= 65025) by (nonlinear_arith)
        requires
            -255 <= d <= 255,
    ;
}

/// The distance of two colours is zero when they are equal, and positive
/// when they are not.
pub proof fn lemma_color_distance_zero(p: Color, q: Color)
    ensures
        color_distance(p, q) >= 0,
        color_distance(p, q) == 0 <==> p == q,
{
    lemma_square_zero(p.r - q.r);
    lemma_square_zero(p.g - q.g);
    lemma_square_zero(p.b - q.b);
    lemma_square_zero(p.a - q.a);
}

proof fn lemma_square_zero(d: int)
    ensures
        d * d >= 0,
        d * d == 0 <==> d == 0,
{
    assert(d * d >= 0 && (d * d == 0 <==> d == 0)) by (nonlinear_arith);
}

/// The sum of squared differences is never negative.
pub proof fn lemma_error_not_negative(a: Seq<Color>, b: Seq<Color>)
    ensures
        squared_error_sum(a, b) >= 0,
    decreases a.len(),
{
    if a.len() > 0 && b.len() >= a.len() {
        lemma_error_not_negative(a.drop_last(), b.take(a.len() - 1));
        lemma_color_distance_zero(a.last(), b[a.len() - 1]);
    }
}

/// Two buffers of one size are at the distance zero from each other exactly
/// when they hold the same pixels.
pub proof fn lemma_zero_error_iff_equal(a: Seq<Color>, b: Seq<Color>)
    requires
        a.len() == b.len(),
    ensures
        squared_error_sum(a, b) == 0 <==> a == b,
    decreases a.len(),
{
    if a.len() > 0 {
        let shorter_a = a.drop_last();
        let shorter_b = b.take(a.len() - 1);
        lemma_zero_error_iff_equal(shorter_a, shorter_b);
        lemma_error_not_negative(shorter_a, shorter_b);
        lemma_color_distance_zero(a.last(), b[a.len() - 1]);
        if squared_error_sum(a, b) == 0 {
            assert(a =~= shorter_a.push(a.last()));
            assert(b =~= shorter_b.push(b[a.len() - 1]));
        }
        if a == b {
            assert(shorter_a =~= shorter_b);
        }
    } else {
        assert(a =~= b);
    }
}

/// How many colours a buffer holds under a list of points depends on its
/// size alone.
pub proof fn lemma_colors_at_len(
    first: Seq<Color>,
    second: Seq<Color>,
    width: int,
    height: int,
    points: Seq<PrimitivePoint>,
)
    ensures
        colors_at(first, width, height, points).len() == colors_at(
            second,
            width,
            height,
            points,
        ).len(),
    decreases points.len(),
{
    if points.len() > 0 {
        lemma_colors_at_len(first, second, width, height, points.drop_last());
    }
}

/// Painting at points of which none lies inside the buffer changes nothing.
pub proof fn lemma_painted_nothing(
    pixels: Seq<Color>,
    width: int,
    height: int,
    points: Seq<PrimitivePoint>,
    color: Color,
)
    requires
        colors_at(pixels, width, height, points).len() == 0,
    ensures
        painted(pixels, width, height, points, color) == pixels,
    decreases points.len(),
{
    if points.len() > 0 {
        lemma_painted_nothing(pixels, width, height, points.drop_last(), color);
    }
}

/// A raster of colours, `width` by `height`, stored row by row.
#[derive(Debug)]
pub struct Canvas {
    width: u32,
    height: u32,
    pixels: Vec<Color>,
}

impl View for Canvas {
    type V = Seq<Color>;

    /// The pixels, row by row.
    closed spec fn view(&self) -> Seq<Color> {
        self.pixels@
    }
}

impl Canvas {
    #[verifier::type_invariant]
    spec fn well_formed(&self) -> bool {
        self.pixels@.len() == self.width as int * self.height as int && self.pixels@.len()
            <= usize::MAX
    }

    pub closed spec fn spec_width(&self) -> u32 {
        self.width
    }

    pub closed spec fn spec_height(&self) -> u32 {
        self.height
    }

    /// Whether `other` has the width and the height of this canvas.
    pub open spec fn same_size(&self, other: &Canvas) -> bool {
        self.spec_width() == other.spec_width() && self.spec_height() == other.spec_height()
    }

    /// A canvas of one colour.
    pub fn from_pixel(width: u32, height: u32, color: Color) -> (canvas: Canvas)
        requires
            width * height <= usize::MAX,
        ensures
            canvas.spec_width() == width,
            canvas.spec_height() == height,
            canvas@ == Seq::new((width * height) as nat, |i: int| color),
    {
        assert(width as usize * height as usize == width * height) by (nonlinear_arith)
            requires
                width * height <= usize::MAX,
        ;
        let count: usize = width as usize * height as usize;
        let mut pixels: Vec<Color> = Vec::new();
        let mut i: usize = 0;
        while i < count
            invariant
                i <= count,
                pixels@ == Seq::new(i as nat, |j: int| color),
            decreases count - i,
        {
            pixels.push(color);
            i += 1;
        }
        Canvas { width, height, pixels }
    }

    /// A canvas of one colour that is as large as this one.
    pub fn blank_like(&self, color: Color) -> (canvas: Canvas)
        ensures
            canvas.same_size(self),
            canvas@.len() == self@.len(),
            canvas@ == Seq::new(
                (self.spec_width() * self.spec_height()) as nat,
                |i: int| color,
            ),
    {
        proof {
            use_type_invariant(self);
        }
        Canvas::from_pixel(self.width, self.height, color)
    }

    /// A canvas over the given pixels, row by row, when there are exactly
    /// `width * height` of them.
    pub fn from_pixels(width: u32, height: u32, pixels: Vec<Color>) -> (canvas: Option<Canvas>)
        ensures
            canvas is Some <==> pixels@.len() == width * height,
            canvas matches Some(c) ==> c.spec_width() == width && c.spec_height() == height
                && c@ == pixels@,
    {
        assert(width * height <= 0xffff_ffff * 0xffff_ffff) by (nonlinear_arith)
            requires
                0 <= width <= 0xffff_ffff,
                0 <= height <= 0xffff_ffff,
        ;
        let count: u64 = width as u64 * height as u64;
        if pixels.len() as u64 == count {
            Some(Canvas { width, height, pixels })
        } else {
            None
        }
    }

    pub fn width(&self) -> (w: u32)
        ensures
            w == self.spec_width(),
    {
        self.width
    }

    pub fn height(&self) -> (h: u32)
        ensures
            h == self.spec_height(),
    {
        self.height
    }

    /// The pixels, row by row.
    pub fn pixels(&self) -> (pixels: &Vec<Color>)
        ensures
            pixels@ == self@,
            pixels@.len() == self.spec_width() * self.spec_height(),
    {
        proof {
            use_type_invariant(self);
        }
        &self.pixels
    }

    pub fn get_pixel(&self, x: u32, y: u32) -> (c: Color)
        requires
            x < self.spec_width(),
            y < self.spec_height(),
        ensures
            c == self@[y * self.spec_width() + x],
    {
        proof {
            use_type_invariant(self);
            lemma_index_in_range(x as int, y as int, self.width as int, self.height as int);
        }
        self.pixels[y as usize * self.width as usize + x as usize]
    }

    /// An equal canvas.
    pub fn duplicate(&self) -> (copy: Canvas)
        ensures
            copy@ == self@,
            copy.same_size(self),
    {
        proof {
            use_type_invariant(self);
        }
        let pixels: Vec<Color> = self.copy_pixels();
        Canvas { width: self.width, height: self.height, pixels }
    }

    fn copy_pixels(&self) -> (pixels: Vec<Color>)
        ensures
            pixels@ == self.pixels@,
    {
        let mut pixels: Vec<Color> = Vec::new();
        let mut i: usize = 0;
        while i < self.pixels.len()
            invariant
                i <= self.pixels.len(),
                pixels@ == self.pixels@.take(i as int),
            decreases self.pixels.len() - i,
        {
            pixels.push(self.pixels[i]);
            i += 1;
        }
        assert(self.pixels@.take(self.pixels@.len() as int) == self.pixels@);
        pixels
    }

    /// This canvas with `color` painted at each of `points` in turn.
    pub fn paint(&self, points: &Vec<PrimitivePoint>, color: Color) -> (out: Canvas)
        ensures
            out.same_size(self),
            out@ == painted(
                self@,
                self.spec_width() as int,
                self.spec_height() as int,
                points@,
                color,
            ),
    {
        proof {
            use_type_invariant(self);
        }
        let mut pixels: Vec<Color> = self.copy_pixels();
        let mut i: usize = 0;
        while i < points.len()
            invariant
                i <= points.len(),
                self.pixels@.len() == self.width as int * self.height as int,
                self.pixels@.len() <= usize::MAX,
                pixels@ == painted(
                    self.pixels@,
                    self.width as int,
                    self.height as int,
                    points@.take(i as int),
                    color,
                ),
                pixels@.len() == self.pixels@.len(),
            decreases points.len() - i,
        {
            let p = points[i];
            proof {
                assert(points@.take(i + 1).drop_last() == points@.take(i as int));
                assert(points@.take(i + 1).last() == p);
            }
            if p.x >= 0 && p.y >= 0 && (p.x as u32) < self.width && (p.y as u32) < self.height {
                proof {
                    lemma_index_in_range(
                        p.x as int,
                        p.y as int,
                        self.width as int,
                        self.height as int,
                    );
                }
                let index: usize = p.y as usize * self.width as usize + p.x as usize;
                let under = pixels[index];
                pixels.set(index, under.painted_with(color));
            }
            i += 1;
        }
        assert(points@.take(points@.len() as int) == points@);
        Canvas { width: self.width, height: self.height, pixels }
    }

    /// The mean colour of the whole canvas: red, green and blue as
    /// `mean_color` gives them, and the alpha `FITTED_ALPHA` on every canvas,
    /// one without pixels too.
    pub fn average_color(&self) -> (c: Color)
        ensures
            c == mean_color(self@).spec_with_alpha(FITTED_ALPHA),
            c.a == FITTED_ALPHA,
    {
        mean_of(&self.pixels).with_alpha(FITTED_ALPHA)
    }

    /// The colours under those of `points` that lie on the canvas.
    pub fn colors_under(&self, points: &Vec<PrimitivePoint>) -> (colors: Vec<Color>)
        ensures
            colors@ == colors_at(
                self@,
                self.spec_width() as int,
                self.spec_height() as int,
                points@,
            ),
    {
        proof {
            use_type_invariant(self);
        }
        let mut colors: Vec<Color> = Vec::new();
        let mut i: usize = 0;
        while i < points.len()
            invariant
                i <= points.len(),
                self.pixels@.len() == self.width as int * self.height as int,
                self.pixels@.len() <= usize::MAX,
                colors@ == colors_at(
                    self.pixels@,
                    self.width as int,
                    self.height as int,
                    points@.take(i as int),
                ),
            decreases points.len() - i,
        {
            let p = points[i];
            proof {
                assert(points@.take(i + 1).drop_last() == points@.take(i as int));
                assert(points@.take(i + 1).last() == p);
            }
            if p.x >= 0 && p.y >= 0 && (p.x as u32) < self.width && (p.y as u32) < self.height {
                proof {
                    lemma_index_in_range(
                        p.x as int,
                        p.y as int,
                        self.width as int,
                        self.height as int,
                    );
                }
                colors.push(self.pixels[p.y as usize * self.width as usize + p.x as usize]);
            }
            i += 1;
        }
        assert(points@.take(points@.len() as int) == points@);
        colors
    }

    /// The mean colour under those of `points` that lie on the canvas;
    /// transparent black when none does.
    pub fn average_color_at(&self, points: &Vec<PrimitivePoint>) -> (c: Color)
        ensures
            c == mean_color(
                colors_at(self@, self.spec_width() as int, self.spec_height() as int, points@),
            ),
    {
        let colors = self.colors_under(points);
        mean_of(&colors)
    }

    /// The sum over all pixels and all four channels of the squared
    /// difference between this canvas and `other`.
    pub fn squared_error(&self, other: &Canvas) -> (e: u128)
        requires
            self.same_size(other),
        ensures
            e == squared_error_sum(self@, other@),
    {
        proof {
            use_type_invariant(self);
            use_type_invariant(other);
        }
        let mut total: u128 = 0;
        let mut i: usize = 0;
        while i < self.pixels.len()
            invariant
                i <= self.pixels.len(),
                self.pixels@.len() == other.pixels@.len(),
                total == squared_error_sum(self.pixels@.take(i as int), other.pixels@.take(i as int)),
                total <= 260100 * i,
            decreases self.pixels.len() - i,
        {
            let p = self.pixels[i];
            let q = other.pixels[i];
            proof {
                let a = self.pixels@.take(i + 1);
                let b = other.pixels@.take(i + 1);
                assert(a.drop_last() == self.pixels@.take(i as int));
                assert(b.take(a.len() - 1) == other.pixels@.take(i as int));
                lemma_color_distance_bounds(p, q);
                lemma_square_bounds(p.r - q.r);
                lemma_square_bounds(p.g - q.g);
                lemma_square_bounds(p.b - q.b);
                lemma_square_bounds(p.a - q.a);
            }
            let dr: i32 = p.r as i32 - q.r as i32;
            let dg: i32 = p.g as i32 - q.g as i32;
            let db: i32 = p.b as i32 - q.b as i32;
            let da: i32 = p.a as i32 - q.a as i32;
            let d: i32 = dr * dr + dg * dg + db * db + da * da;
            total = total + d as u128;
            i += 1;
        }
        assert(self.pixels@.take(self.pixels@.len() as int) == self.pixels@);
        assert(other.pixels@.take(other.pixels@.len() as int) == other.pixels@);
        total
    }
}

/// The mean colour of a list of colours.
pub fn mean_of(colors: &Vec<Color>) -> (c: Color)
    ensures
        c == mean_color(colors@),
        colors@.len() > 0 ==> c.a == FITTED_ALPHA,
{
    let mut red: u128 = 0;
    let mut green: u128 = 0;
    let mut blue: u128 = 0;
    let mut i: usize = 0;
    while i < colors.len()
        invariant
            i <= colors.len(),
            red == channel_sum(colors@.take(i as int), 0),
            green == channel_sum(colors@.take(i as int), 1),
            blue == channel_sum(colors@.take(i as int), 2),
            red <= 255 * i,
            green <= 255 * i,
            blue <= 255 * i,
        decreases colors.len() - i,
    {
        let p = colors[i];
        proof {
            assert(colors@.take(i + 1).drop_last() == colors@.take(i as int));
            assert(colors@.take(i + 1).last() == p);
        }
        red = red + p.r as u128;
        green = green + p.g as u128;
        blue = blue + p.b as u128;
        i += 1;
    }
    assert(colors@.take(colors@.len() as int) == colors@);
    if colors.len() == 0 {
        Color { r: 0, g: 0, b: 0, a: 0 }
    } else {
        let count: u128 = colors.len() as u128;
        assert(red / count <= 255 && green / count <= 255 && blue / count <= 255)
            by (nonlinear_arith)
            requires
                count > 0,
                red <= 255 * count,
                green <= 255 * count,
                blue <= 255 * count,
        ;
        Color {
            r: (red / count) as u8,
            g: (green / count) as u8,
            b: (blue / count) as u8,
            a: FITTED_ALPHA,
        }
    }
}

} // verus!
