use crate::canvas::Color;
use crate::cubic_bezier::CubicBezier;
use crate::ellipse::Ellipse;
use crate::point::PrimitivePoint;
use crate::primitive_image::PrimitiveImage;
use crate::quadratic_bezier::QuadraticBezier;
use crate::rectangle::Rectangle;
use crate::scale::Ratio;
use crate::shape::Shape;
use crate::triangle::Triangle;
use crate::utilities::hex_digit;
use crate::utilities::rgb_to_hex;
use crate::utilities::spec_hex_digit;
use crate::utilities::spec_rgb_to_hex;
use vstd::prelude::*;
use vstd::string::StringExecFns;

verus! {

/// The decimal digits of a natural number, without leading zeros.
pub open spec fn spec_digits(n: nat) -> Seq<char>
    decreases n,
{
    if n < 10 {
        seq![spec_hex_digit(n as int)]
    } else {
        spec_digits(n / 10) + seq![spec_hex_digit((n % 10) as int)]
    }
}

/// Writes a natural number in decimal.
pub fn digits(n: u64) -> (text: String)
    ensures
        text@ == spec_digits(n as nat),
    decreases n,
{
    if n < 10 {
        String::from_str(hex_digit(n as u8))
    } else {
        let mut text = digits(n / 10);
        text.append(hex_digit((n % 10) as u8));
        text
    }
}

/// An integer in decimal, with a minus sign in front of a negative one.
pub open spec fn spec_decimal(n: int) -> Seq<char> {
    if n < 0 {
        "-"@ + spec_digits((-n) as nat)
    } else {
        spec_digits(n as nat)
    }
}

/// Writes an integer in decimal.
pub fn decimal(n: i64) -> (text: String)
    requires
        n > i64::MIN,
    ensures
        text@ == spec_decimal(n as int),
{
    if n < 0 {
        let mut text = String::from_str("-");
        let rest = digits((-n) as u64);
        text.append(rest.as_str());
        text
    } else {
        digits(n as u64)
    }
}

/// Half of `doubled` in decimal: a whole number as it is, any other with
/// `.5` behind its whole part.
pub open spec fn spec_halves(doubled: int) -> Seq<char> {
    if doubled % 2 == 0 {
        spec_decimal(doubled / 2)
    } else if doubled < 0 {
        "-"@ + spec_digits(((-doubled) / 2) as nat) + ".5"@
    } else {
        spec_digits((doubled / 2) as nat) + ".5"@
    }
}

/// Writes half of `doubled` in decimal.
pub fn halves(doubled: i64) -> (text: String)
    requires
        doubled > i64::MIN,
    ensures
        text@ == spec_halves(doubled as int),
{
    if doubled % 2 == 0 {
        decimal(doubled / 2)
    } else if doubled < 0 {
        let mut text = String::from_str("-");
        let whole = digits(((-doubled) / 2) as u64);
        text.append(whole.as_str());
        text.append(".5");
        text
    } else {
        let mut text = digits((doubled / 2) as u64);
        text.append(".5");
        text
    }
}

/// A number of hundred-thousandths as a decimal fraction with five places:
/// the whole part with as many digits as it has, a point, and five digits.
pub open spec fn spec_five_places(parts: int) -> Seq<char> {
    spec_digits((parts / 100000) as nat) + seq![
        '.',
        spec_hex_digit(parts / 10000 % 10),
        spec_hex_digit(parts / 1000 % 10),
        spec_hex_digit(parts / 100 % 10),
        spec_hex_digit(parts / 10 % 10),
        spec_hex_digit(parts % 10),
    ]
}

fn five_places(parts: u64) -> (text: String)
    ensures
        text@ == spec_five_places(parts as int),
{
    proof {
        reveal_strlit(".");
    }
    let mut text = digits(parts / 100000);
    text.append(".");
    text.append(hex_digit((parts / 10000 % 10) as u8));
    text.append(hex_digit((parts / 1000 % 10) as u8));
    text.append(hex_digit((parts / 100 % 10) as u8));
    text.append(hex_digit((parts / 10 % 10) as u8));
    text.append(hex_digit((parts % 10) as u8));
    assert(text@ =~= spec_five_places(parts as int));
    text
}

/// The hundred-thousandths nearest to `alpha / 255`.
pub open spec fn spec_opacity_parts(alpha: u8) -> int {
    (200000 * alpha + 255) / 510
}

/// The opacity `alpha / 255`, rounded to five decimal places.
pub open spec fn spec_opacity(alpha: u8) -> Seq<char> {
    spec_five_places(spec_opacity_parts(alpha))
}

/// Writes the opacity that an alpha stands for, with five decimal places.
pub fn opacity(alpha: u8) -> (text: String)
    ensures
        text@ == spec_opacity(alpha),
{
    five_places((200000 * alpha as u64 + 255) / 510)
}

/// Half the factor `numerator / denominator` in hundred-thousandths,
/// rounded down: the width of a stroke.
pub open spec fn spec_stroke_parts(factor: Ratio) -> int {
    (factor.numerator as int * 50000) / factor.denominator as int
}

fn stroke_width(factor: &Ratio) -> (text: String)
    requires
        factor.wf(),
    ensures
        text@ == spec_five_places(spec_stroke_parts(*factor)),
{
    five_places((factor.numerator as u64 * 50000) / factor.denominator as u64)
}

/// A point as `x`, a separator and `y`.
pub open spec fn spec_point(p: PrimitivePoint, separator: Seq<char>) -> Seq<char> {
    spec_decimal(p.x as int) + separator + spec_decimal(p.y as int)
}

fn point(p: PrimitivePoint, separator: &str) -> (text: String)
    ensures
        text@ == spec_point(p, separator@),
{
    let mut text = decimal(p.x as i64);
    text.append(separator);
    let y = decimal(p.y as i64);
    text.append(y.as_str());
    text
}

/// The markup of a triangle: a polygon with its three vertices.
pub open spec fn spec_triangle(t: Triangle) -> Seq<char> {
    "<polygon fill=\""@ + spec_rgb_to_hex(t.color) + "\" fill-opacity=\""@ + spec_opacity(t.color.a)
        + "\" points=\""@ + spec_point(t.path[0], ","@) + " "@ + spec_point(t.path[1], ","@) + " "@
        + spec_point(t.path[2], ","@) + "\" />"@
}

/// Where the upright rectangle starts along one axis: its centre less half
/// its side, the half rounded down.
pub open spec fn spec_rectangle_start(center: int, side: int) -> int {
    center - side / 2
}

/// The markup of a rectangle: the upright rectangle and a rotation about its
/// middle.
pub open spec fn spec_rectangle(r: Rectangle) -> Seq<char> {
    let x = spec_rectangle_start(r.center.x as int, r.width as int);
    let y = spec_rectangle_start(r.center.y as int, r.height as int);
    "<rect fill=\""@ + spec_rgb_to_hex(r.color) + "\" fill-opacity=\""@ + spec_opacity(r.color.a)
        + "\" x=\""@ + spec_decimal(x) + "\" y=\""@ + spec_decimal(y) + "\" width=\""@
        + spec_decimal(r.width as int) + "\" height=\""@ + spec_decimal(r.height as int)
        + "\" transform=\"rotate("@ + spec_decimal(r.angle as int) + " "@ + spec_halves(
        2 * x + r.width,
    ) + " "@ + spec_halves(2 * y + r.height) + ")\"/>"@
}

/// The markup of an ellipse: the upright ellipse and a rotation about its
/// centre against its angle.
pub open spec fn spec_ellipse(e: Ellipse) -> Seq<char> {
    "<ellipse fill=\""@ + spec_rgb_to_hex(e.color) + "\" fill-opacity=\""@ + spec_opacity(e.color.a)
        + "\" cx=\""@ + spec_decimal(e.center.x as int) + "\" cy=\""@ + spec_decimal(
        e.center.y as int,
    ) + "\" rx=\""@ + spec_decimal(e.a as int) + "\" ry=\""@ + spec_decimal(e.b as int)
        + "\" transform=\"rotate("@ + spec_decimal(-(e.angle as int)) + " "@ + spec_point(
        e.center,
        " "@,
    ) + ")\"/>"@
}

/// The markup of a quadratic curve: a path with one quadratic command,
/// stroked `width` wide.
pub open spec fn spec_quadratic(q: QuadraticBezier, width: Seq<char>) -> Seq<char> {
    "<path stroke=\""@ + spec_rgb_to_hex(q.color) + "\" stroke-opacity=\""@ + spec_opacity(
        q.color.a,
    ) + "\" fill=\"none\" d=\"M"@ + spec_point(q.start, " "@) + " Q"@ + spec_point(q.control, " "@)
        + ", "@ + spec_point(q.end, " "@) + "\" stroke-width=\""@ + width + "\" />"@
}

/// The markup of a cubic curve: a path with one cubic command, stroked
/// `width` wide.
pub open spec fn spec_cubic(c: CubicBezier, width: Seq<char>) -> Seq<char> {
    "<path stroke=\""@ + spec_rgb_to_hex(c.color) + "\" stroke-opacity=\""@ + spec_opacity(
        c.color.a,
    ) + "\" fill=\"none\" d=\"M"@ + spec_point(c.start, " "@) + " C"@ + spec_point(c.control1, " "@)
        + ", "@ + spec_point(c.control2, " "@) + ", "@ + spec_point(c.end, " "@)
        + "\" stroke-width=\""@ + width + "\" />"@
}

impl Triangle {
    /// The markup of this triangle with every coordinate multiplied by
    /// `scale`.
    pub fn as_svg(&self, scale: &Ratio) -> (markup: String)
        requires
            scale.wf(),
        ensures
            markup@ == spec_triangle(self.spec_scaled(*scale)),
    {
        let t = self.scaled(scale);
        let mut markup = String::from_str("<polygon fill=\"");
        markup.append(rgb_to_hex(t.color).as_str());
        markup.append("\" fill-opacity=\"");
        markup.append(opacity(t.color.a).as_str());
        markup.append("\" points=\"");
        markup.append(point(t.path[0], ",").as_str());
        markup.append(" ");
        markup.append(point(t.path[1], ",").as_str());
        markup.append(" ");
        markup.append(point(t.path[2], ",").as_str());
        markup.append("\" />");
        markup
    }
}

impl Rectangle {
    /// The markup of this rectangle with every length multiplied by `scale`.
    pub fn as_svg(&self, scale: &Ratio) -> (markup: String)
        requires
            scale.wf(),
        ensures
            markup@ == spec_rectangle(self.spec_scaled(*scale)),
    {
        let r = self.scaled(scale);
        let x: i64 = r.center.x as i64 - (r.width / 2) as i64;
        let y: i64 = r.center.y as i64 - (r.height / 2) as i64;
        let mut markup = String::from_str("<rect fill=\"");
        markup.append(rgb_to_hex(r.color).as_str());
        markup.append("\" fill-opacity=\"");
        markup.append(opacity(r.color.a).as_str());
        markup.append("\" x=\"");
        markup.append(decimal(x).as_str());
        markup.append("\" y=\"");
        markup.append(decimal(y).as_str());
        markup.append("\" width=\"");
        markup.append(decimal(r.width as i64).as_str());
        markup.append("\" height=\"");
        markup.append(decimal(r.height as i64).as_str());
        markup.append("\" transform=\"rotate(");
        markup.append(decimal(r.angle as i64).as_str());
        markup.append(" ");
        markup.append(halves(2 * x + r.width as i64).as_str());
        markup.append(" ");
        markup.append(halves(2 * y + r.height as i64).as_str());
        markup.append(")\"/>");
        markup
    }
}

impl Ellipse {
    /// The markup of this ellipse with every length multiplied by `scale`.
    pub fn as_svg(&self, scale: &Ratio) -> (markup: String)
        requires
            scale.wf(),
        ensures
            markup@ == spec_ellipse(self.spec_scaled(*scale)),
    {
        let e = self.scaled(scale);
        let mut markup = String::from_str("<ellipse fill=\"");
        markup.append(rgb_to_hex(e.color).as_str());
        markup.append("\" fill-opacity=\"");
        markup.append(opacity(e.color.a).as_str());
        markup.append("\" cx=\"");
        markup.append(decimal(e.center.x as i64).as_str());
        markup.append("\" cy=\"");
        markup.append(decimal(e.center.y as i64).as_str());
        markup.append("\" rx=\"");
        markup.append(decimal(e.a as i64).as_str());
        markup.append("\" ry=\"");
        markup.append(decimal(e.b as i64).as_str());
        markup.append("\" transform=\"rotate(");
        markup.append(decimal(-(e.angle as i64)).as_str());
        markup.append(" ");
        markup.append(point(e.center, " ").as_str());
        markup.append(")\"/>");
        markup
    }
}

impl QuadraticBezier {
    /// The markup of this curve with every coordinate multiplied by `scale`,
    /// stroked half of `scale` wide.
    pub fn as_svg(&self, scale: &Ratio) -> (markup: String)
        requires
            scale.wf(),
        ensures
            markup@ == spec_quadratic(
                self.spec_scaled(*scale),
                spec_five_places(spec_stroke_parts(*scale)),
            ),
    {
        let q = self.scaled(scale);
        let mut markup = String::from_str("<path stroke=\"");
        markup.append(rgb_to_hex(q.color).as_str());
        markup.append("\" stroke-opacity=\"");
        markup.append(opacity(q.color.a).as_str());
        markup.append("\" fill=\"none\" d=\"M");
        markup.append(point(q.start, " ").as_str());
        markup.append(" Q");
        markup.append(point(q.control, " ").as_str());
        markup.append(", ");
        markup.append(point(q.end, " ").as_str());
        markup.append("\" stroke-width=\"");
        markup.append(stroke_width(scale).as_str());
        markup.append("\" />");
        markup
    }
}

impl CubicBezier {
    /// The markup of this curve with every coordinate multiplied by `scale`,
    /// stroked half of `scale` wide.
    pub fn as_svg(&self, scale: &Ratio) -> (markup: String)
        requires
            scale.wf(),
        ensures
            markup@ == spec_cubic(
                self.spec_scaled(*scale),
                spec_five_places(spec_stroke_parts(*scale)),
            ),
    {
        let c = self.scaled(scale);
        let mut markup = String::from_str("<path stroke=\"");
        markup.append(rgb_to_hex(c.color).as_str());
        markup.append("\" stroke-opacity=\"");
        markup.append(opacity(c.color.a).as_str());
        markup.append("\" fill=\"none\" d=\"M");
        markup.append(point(c.start, " ").as_str());
        markup.append(" C");
        markup.append(point(c.control1, " ").as_str());
        markup.append(", ");
        markup.append(point(c.control2, " ").as_str());
        markup.append(", ");
        markup.append(point(c.end, " ").as_str());
        markup.append("\" stroke-width=\"");
        markup.append(stroke_width(scale).as_str());
        markup.append("\" />");
        markup
    }
}

/// The markup of a shape of any family, scaled by `scale`.
pub open spec fn spec_shape(shape: Shape, scale: Ratio) -> Seq<char> {
    match shape {
        Shape::Triangle(s) => spec_triangle(s.spec_scaled(scale)),
        Shape::CubicBezier(s) => spec_cubic(
            s.spec_scaled(scale),
            spec_five_places(spec_stroke_parts(scale)),
        ),
        Shape::QuadraticBezier(s) => spec_quadratic(
            s.spec_scaled(scale),
            spec_five_places(spec_stroke_parts(scale)),
        ),
        Shape::Ellipse(s) => spec_ellipse(s.spec_scaled(scale)),
        Shape::Rectangle(s) => spec_rectangle(s.spec_scaled(scale)),
    }
}

impl Shape {
    /// The markup of this shape with every length multiplied by `scale`.
    pub fn as_svg(&self, scale: &Ratio) -> (markup: String)
        requires
            scale.wf(),
        ensures
            markup@ == spec_shape(*self, *scale),
    {
        match self {
            Shape::Triangle(s) => s.as_svg(scale),
            Shape::CubicBezier(s) => s.as_svg(scale),
            Shape::QuadraticBezier(s) => s.as_svg(scale),
            Shape::Ellipse(s) => s.as_svg(scale),
            Shape::Rectangle(s) => s.as_svg(scale),
        }
    }
}

/// The markup of `shapes`, each scaled by `scale`, one after the other.
pub open spec fn spec_shapes(shapes: Seq<Shape>, scale: Ratio) -> Seq<char>
    decreases shapes.len(),
{
    if shapes.len() == 0 {
        Seq::empty()
    } else {
        spec_shapes(shapes.drop_last(), scale) + spec_shape(shapes.last(), scale)
    }
}

/// The markup of a whole result: a document of the given size that holds a
/// rectangle in the background colour and, in a group, the shapes in the
/// order in which they were accepted.
pub open spec fn spec_document(
    width: int,
    height: int,
    background: Color,
    shapes: Seq<Shape>,
    scale: Ratio,
) -> Seq<char> {
    "<svg xmlns=\"http://www.w3.org/2000/svg\" version=\"1.1\" width=\""@ + spec_decimal(width)
        + "\" height=\""@ + spec_decimal(height) + "\">"@ + "<rect x=\"0\" y=\"0\" width=\""@
        + spec_decimal(width) + "\" height=\""@ + spec_decimal(height) + "\" fill=\""@
        + spec_rgb_to_hex(background) + "\" />"@ + "<g>"@ + spec_shapes(shapes, scale)
        + "</g></svg>"@
}

impl PrimitiveImage {
    /// The result as vector markup, at the size of the image that the
    /// session was made from.
    pub fn as_svg(&self) -> (markup: String)
        requires
            self.wf(),
        ensures
            markup@ == spec_document(
                self.spec_original_size().0,
                self.spec_original_size().1,
                self.spec_background(),
                self.spec_shapes(),
                Ratio {
                    numerator: self.spec_scale().denominator,
                    denominator: self.spec_scale().numerator,
                },
            ),
    {
        let (width, height) = self.original_size();
        let back = self.scale().inverse();
        let mut markup = String::from_str(
            "<svg xmlns=\"http://www.w3.org/2000/svg\" version=\"1.1\" width=\"",
        );
        markup.append(decimal(width as i64).as_str());
        markup.append("\" height=\"");
        markup.append(decimal(height as i64).as_str());
        markup.append("\">");
        markup.append("<rect x=\"0\" y=\"0\" width=\"");
        markup.append(decimal(width as i64).as_str());
        markup.append("\" height=\"");
        markup.append(decimal(height as i64).as_str());
        markup.append("\" fill=\"");
        markup.append(rgb_to_hex(self.background()).as_str());
        markup.append("\" />");
        markup.append("<g>");
        let shapes = self.shapes();
        let ghost head = markup@;
        let mut i: usize = 0;
        while i < shapes.len()
            invariant
                i <= shapes.len(),
                back.wf(),
                markup@ == head + spec_shapes(shapes@.take(i as int), back),
            decreases shapes.len() - i,
        {
            proof {
                assert(shapes@.take(i + 1).drop_last() == shapes@.take(i as int));
            }
            markup.append(shapes[i].as_svg(&back).as_str());
            i += 1;
        }
        assert(shapes@.take(shapes@.len() as int) == shapes@);
        markup.append("</g></svg>");
        markup
    }
}

} // verus!
