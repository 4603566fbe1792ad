use crate::canvas::Canvas;
use crate::canvas::Color;
use crate::canvas::colors_at;
use crate::canvas::mean_color;
use crate::canvas::painted;
use crate::cubic_bezier::CubicBezier;
use crate::ellipse::Ellipse;
use crate::point::PrimitivePoint;
use crate::primitive_image::PrimitiveImage;
use crate::quadratic_bezier::QuadraticBezier;
use crate::rectangle::MINIMUM_SIDE;
use crate::rectangle::Rectangle;
use crate::scale::Ratio;
use crate::triangle::Triangle;
use crate::utilities::larger;
use crate::utilities::spec_larger;
use rand::rngs::StdRng;
use vstd::prelude::*;

verus! {

/// How many times a mutation may fail to give a valid shape before the
/// following failure ends it.
pub const MAXIMUM_MUTATION_ATTEMPTS: u32 = 100_000;

/// The families of shapes that can be fitted.
#[derive(Debug, Copy, Clone, PartialEq, Eq, Structural)]
pub enum ShapeType {
    Triangle,
    CubicBezier,
    QuadraticBezier,
    Ellipse,
    Rectangle,
}

/// Why no shape came out of a generation or a mutation.
#[derive(Debug, Copy, Clone, PartialEq, Eq, Structural)]
pub enum ShapeError {
    /// No valid shape was found within the attempts allowed: the family's
    /// constraints cannot be met on a canvas of this size.
    GenerationExhausted,
}

/// What a mutation does after one single change.
#[derive(Debug, Copy, Clone, PartialEq, Eq, Structural)]
pub enum Retry {
    /// The change gave a valid shape: the mutation ends with it.
    Done,
    /// The change failed and another one is made on top of it.
    Again,
    /// The change failed and no attempt is left: the mutation ends in
    /// `ShapeError::GenerationExhausted`.
    GiveUp,
}

/// Decides how a mutation goes on after a single change: `valid` says
/// whether the change gave a valid shape, `failures` how many changes failed
/// before it. A valid shape ends the mutation; a failure after
/// `MAXIMUM_MUTATION_ATTEMPTS` earlier ones, or more, ends it too, without a
/// shape.
pub fn after_change(valid: bool, failures: u32) -> (next: Retry)
    ensures
        next == (if valid {
            Retry::Done
        } else if failures >= MAXIMUM_MUTATION_ATTEMPTS {
            Retry::GiveUp
        } else {
            Retry::Again
        }),
{
    if valid {
        Retry::Done
    } else if failures >= MAXIMUM_MUTATION_ATTEMPTS {
        Retry::GiveUp
    } else {
        Retry::Again
    }
}

impl ShapeType {
    /// Whether shapes of this family can be generated on a `width` by
    /// `height` canvas with the given border extension: the canvas is not
    /// empty, every coordinate that a generated or mutated point can take
    /// fits in 32 bits, and the range from which the family draws its sizes
    /// is not empty.
    pub open spec fn spec_supported_on(&self, width: int, height: int, border_extension: int) -> bool {
        &&& 0 < width
        &&& 0 < height
        &&& 1 <= border_extension
        &&& width + border_extension <= i32::MAX
        &&& height + border_extension <= i32::MAX
        &&& *self == ShapeType::Rectangle ==> spec_larger(width, height) / 2 > MINIMUM_SIDE
        &&& *self == ShapeType::Ellipse ==> spec_larger(width, height) / 10 > 1
    }

    pub fn supported_on(&self, width: u32, height: u32, border_extension: i32) -> (supported: bool)
        ensures
            supported == self.spec_supported_on(
                width as int,
                height as int,
                border_extension as int,
            ),
    {
        let most: u32 = larger(width, height);
        if width == 0 || height == 0 || border_extension < 1 {
            return false;
        }
        if width as i64 + border_extension as i64 > i32::MAX as i64 || height as i64
            + border_extension as i64 > i32::MAX as i64 {
            return false;
        }
        match self {
            ShapeType::Rectangle => most / 2 > MINIMUM_SIDE,
            ShapeType::Ellipse => most / 10 > 1,
            _ => true,
        }
    }
}

/// A shape of any of the five families.
#[derive(Debug, Copy, Clone, PartialEq, Eq)]
pub enum Shape {
    Triangle(Triangle),
    CubicBezier(CubicBezier),
    QuadraticBezier(QuadraticBezier),
    Ellipse(Ellipse),
    Rectangle(Rectangle),
}

impl Shape {
    /// The family of the shape.
    pub open spec fn spec_kind(&self) -> ShapeType {
        match self {
            Shape::Triangle(_) => ShapeType::Triangle,
            Shape::CubicBezier(_) => ShapeType::CubicBezier,
            Shape::QuadraticBezier(_) => ShapeType::QuadraticBezier,
            Shape::Ellipse(_) => ShapeType::Ellipse,
            Shape::Rectangle(_) => ShapeType::Rectangle,
        }
    }

    pub fn kind(&self) -> (kind: ShapeType)
        ensures
            kind == self.spec_kind(),
    {
        match self {
            Shape::Triangle(_) => ShapeType::Triangle,
            Shape::CubicBezier(_) => ShapeType::CubicBezier,
            Shape::QuadraticBezier(_) => ShapeType::QuadraticBezier,
            Shape::Ellipse(_) => ShapeType::Ellipse,
            Shape::Rectangle(_) => ShapeType::Rectangle,
        }
    }

    /// The colour of the shape.
    pub open spec fn spec_color(&self) -> Color {
        match self {
            Shape::Triangle(s) => s.color,
            Shape::CubicBezier(s) => s.color,
            Shape::QuadraticBezier(s) => s.color,
            Shape::Ellipse(s) => s.color,
            Shape::Rectangle(s) => s.color,
        }
    }

    pub fn color(&self) -> (color: Color)
        ensures
            color == self.spec_color(),
    {
        match self {
            Shape::Triangle(s) => s.color,
            Shape::CubicBezier(s) => s.color,
            Shape::QuadraticBezier(s) => s.color,
            Shape::Ellipse(s) => s.color,
            Shape::Rectangle(s) => s.color,
        }
    }

    /// This shape in another colour.
    pub open spec fn spec_with_color(&self, color: Color) -> Shape {
        match self {
            Shape::Triangle(s) => Shape::Triangle(Triangle { color, ..*s }),
            Shape::CubicBezier(s) => Shape::CubicBezier(CubicBezier { color, ..*s }),
            Shape::QuadraticBezier(s) => Shape::QuadraticBezier(QuadraticBezier { color, ..*s }),
            Shape::Ellipse(s) => Shape::Ellipse(Ellipse { color, ..*s }),
            Shape::Rectangle(s) => Shape::Rectangle(Rectangle { color, ..*s }),
        }
    }

    /// Whether the shape has the colour that fits it to `target`: the mean
    /// colour that `target` has under it.
    pub open spec fn spec_fitted_to(&self, target: Canvas) -> bool {
        self.spec_color() == mean_color(
            colors_at(
                target@,
                target.spec_width() as int,
                target.spec_height() as int,
                self.spec_pixels(),
            ),
        )
    }

    /// The pixels that the shape covers, in the order in which its family
    /// lists them.
    pub open spec fn spec_pixels(&self) -> Seq<PrimitivePoint> {
        match self {
            Shape::Triangle(s) => s.spec_pixels(),
            Shape::CubicBezier(s) => s.spec_pixels(),
            Shape::QuadraticBezier(s) => s.spec_pixels(),
            Shape::Ellipse(s) => s.spec_pixels(),
            Shape::Rectangle(s) => s.spec_pixels(),
        }
    }

    /// Whether the shape meets its family's rule on a `width` by `height`
    /// canvas.
    pub open spec fn spec_is_valid(&self, width: int, height: int) -> bool {
        match self {
            Shape::Triangle(s) => s.spec_is_valid(),
            Shape::CubicBezier(s) => s.spec_is_valid(),
            Shape::QuadraticBezier(s) => s.spec_is_valid(),
            Shape::Ellipse(s) => s.spec_is_valid(width, height),
            Shape::Rectangle(s) => s.spec_is_valid(),
        }
    }

    pub fn is_valid(&self, width: u32, height: u32) -> (valid: bool)
        ensures
            valid == self.spec_is_valid(width as int, height as int),
    {
        match self {
            Shape::Triangle(s) => s.is_valid(),
            Shape::CubicBezier(s) => s.is_valid(),
            Shape::QuadraticBezier(s) => s.is_valid(),
            Shape::Ellipse(s) => s.is_valid(width, height),
            Shape::Rectangle(s) => s.is_valid(),
        }
    }

    pub fn get_pixels(&self) -> (pixels: Vec<PrimitivePoint>)
        ensures
            pixels@ == self.spec_pixels(),
    {
        match self {
            Shape::Triangle(s) => s.get_pixels(),
            Shape::CubicBezier(s) => s.get_pixels(),
            Shape::QuadraticBezier(s) => s.get_pixels(),
            Shape::Ellipse(s) => s.get_pixels(),
            Shape::Rectangle(s) => s.get_pixels(),
        }
    }

    /// This shape painted over `image`: its colour blended into every pixel
    /// of `image` that it covers.
    pub fn paint_on(&self, image: &Canvas) -> (out: Canvas)
        ensures
            out.same_size(image),
            out@ == painted(
                image@,
                image.spec_width() as int,
                image.spec_height() as int,
                self.spec_pixels(),
                self.spec_color(),
            ),
    {
        match self {
            Shape::Triangle(s) => s.paint_on(image),
            Shape::CubicBezier(s) => s.paint_on(image),
            Shape::QuadraticBezier(s) => s.paint_on(image),
            Shape::Ellipse(s) => s.paint_on(image),
            Shape::Rectangle(s) => s.paint_on(image),
        }
    }

    /// This shape with every length multiplied by `factor`: its points and
    /// its sizes, each rounded toward zero. The angle and the colour stay.
    pub open spec fn spec_scaled(&self, factor: Ratio) -> Shape {
        match self {
            Shape::Triangle(s) => Shape::Triangle(s.spec_scaled(factor)),
            Shape::CubicBezier(s) => Shape::CubicBezier(s.spec_scaled(factor)),
            Shape::QuadraticBezier(s) => Shape::QuadraticBezier(s.spec_scaled(factor)),
            Shape::Ellipse(s) => Shape::Ellipse(s.spec_scaled(factor)),
            Shape::Rectangle(s) => Shape::Rectangle(s.spec_scaled(factor)),
        }
    }

    pub fn scaled(&self, factor: &Ratio) -> (shape: Shape)
        requires
            factor.wf(),
        ensures
            shape == self.spec_scaled(*factor),
            shape.spec_color() == self.spec_color(),
    {
        match self {
            Shape::Triangle(s) => Shape::Triangle(s.scaled(factor)),
            Shape::CubicBezier(s) => Shape::CubicBezier(s.scaled(factor)),
            Shape::QuadraticBezier(s) => Shape::QuadraticBezier(s.scaled(factor)),
            Shape::Ellipse(s) => Shape::Ellipse(s.scaled(factor)),
            Shape::Rectangle(s) => Shape::Rectangle(s.scaled(factor)),
        }
    }

    /// This shape, scaled by `factor`, painted over `image`.
    pub fn scaled_paint_on(&self, image: &Canvas, factor: &Ratio) -> (out: Canvas)
        requires
            factor.wf(),
        ensures
            out.same_size(image),
            out@ == painted(
                image@,
                image.spec_width() as int,
                image.spec_height() as int,
                self.spec_scaled(*factor).spec_pixels(),
                self.spec_scaled(*factor).spec_color(),
            ),
    {
        self.scaled(factor).paint_on(image)
    }

    /// Gives the shape the mean colour that the session's target has under
    /// it; nothing else of the shape changes.
    pub fn set_color_using(&mut self, image: &PrimitiveImage)
        ensures
            *final(self) == old(self).spec_with_color(
                mean_color(
                    colors_at(
                        image.spec_target()@,
                        image.spec_target().spec_width() as int,
                        image.spec_target().spec_height() as int,
                        old(self).spec_pixels(),
                    ),
                ),
            ),
            final(self).spec_fitted_to(image.spec_target()),
            final(self).spec_pixels() == old(self).spec_pixels(),
            final(self).spec_kind() == old(self).spec_kind(),
            forall|width: int, height: int|
                final(self).spec_is_valid(width, height) == old(self).spec_is_valid(width, height),
    {
        match self {
            Shape::Triangle(s) => {
                let mut t = *s;
                t.set_color_using(image);
                assert(t.path =~= s.path);
                *self = Shape::Triangle(t);
            },
            Shape::CubicBezier(s) => {
                let mut t = *s;
                t.set_color_using(image);
                *self = Shape::CubicBezier(t);
            },
            Shape::QuadraticBezier(s) => {
                let mut t = *s;
                t.set_color_using(image);
                *self = Shape::QuadraticBezier(t);
            },
            Shape::Ellipse(s) => {
                let mut t = *s;
                t.set_color_using(image);
                *self = Shape::Ellipse(t);
            },
            Shape::Rectangle(s) => {
                let mut t = *s;
                t.set_color_using(image);
                *self = Shape::Rectangle(t);
            },
        }
    }

    /// Whether `self` is what a mutation on a `width` by `height` canvas can
    /// make of `before`: a shape of the same family that comes from it by one
    /// change of one parameter or, in the families with a rule of validity,
    /// by several such changes one after the other.
    pub open spec fn spec_mutated_from(&self, before: Shape, width: int, height: int) -> bool {
        match (*self, before) {
            (Shape::Triangle(a), Shape::Triangle(b)) => a.spec_mutated_from(b, width, height),
            (Shape::CubicBezier(a), Shape::CubicBezier(b)) => a.spec_mutation_of(b, width, height),
            (Shape::QuadraticBezier(a), Shape::QuadraticBezier(b)) => a.spec_mutated_from(b, width, height),
            (Shape::Ellipse(a), Shape::Ellipse(b)) => a.spec_mutated_from(b, width, height),
            (Shape::Rectangle(a), Shape::Rectangle(b)) => a.spec_mutation_of(b, width, height),
            _ => false,
        }
    }

    /// Whether a mutation of the shape on a `width` by `height` canvas can
    /// give up, as its family says. Rectangles and cubic curves are always
    /// valid, so that their mutation never does.
    pub open spec fn spec_exhausted(&self, width: int, height: int) -> bool {
        match self {
            Shape::Triangle(s) => s.spec_exhausted(width, height),
            Shape::CubicBezier(_) => false,
            Shape::QuadraticBezier(s) => s.spec_exhausted(width, height),
            Shape::Ellipse(s) => s.spec_exhausted(width, height),
            Shape::Rectangle(_) => false,
        }
    }

    /// Whether the shape is one that the generation of its family starts
    /// from, before the mutation that ends it.
    pub open spec fn spec_fresh(&self, width: int, height: int, border_extension: int) -> bool {
        match self {
            Shape::Triangle(s) => s.spec_fresh(width, height, border_extension),
            Shape::CubicBezier(s) => s.spec_fresh(width, height, border_extension),
            Shape::QuadraticBezier(s) => s.spec_fresh(width, height, border_extension),
            Shape::Ellipse(s) => s.spec_fresh(width, height),
            Shape::Rectangle(s) => s.spec_fresh(width, height),
        }
    }

    /// Mutates the shape as its family does. The family and the colour stay;
    /// after a success the shape is valid, after a failure it is as it was.
    pub fn mutate<N: Fn(&mut StdRng) -> i32>(
        &mut self,
        width: u32,
        height: u32,
        rng: &mut StdRng,
        noise: &N,
    ) -> (res: Result<(), ShapeError>)
        requires
            forall|g: &mut StdRng| call_requires(noise, (g,)),
        ensures
            final(self).spec_kind() == old(self).spec_kind(),
            final(self).spec_color() == old(self).spec_color(),
            res is Ok ==> final(self).spec_is_valid(width as int, height as int),
            res is Ok ==> final(self).spec_mutated_from(*old(self), width as int, height as int),
            res is Err ==> *final(self) == *old(self),
            res is Err ==> old(self).spec_exhausted(width as int, height as int),
            old(self).spec_kind() == ShapeType::Rectangle || old(self).spec_kind()
                == ShapeType::CubicBezier ==> res is Ok,
    {
        match self {
            Shape::Triangle(s) => {
                let mut t = *s;
                let res = t.mutate(width, height, rng, noise);
                *self = Shape::Triangle(t);
                res
            },
            Shape::CubicBezier(s) => {
                let mut t = *s;
                t.mutate(width, height, rng, noise);
                *self = Shape::CubicBezier(t);
                Ok(())
            },
            Shape::QuadraticBezier(s) => {
                let mut t = *s;
                let res = t.mutate(width, height, rng, noise);
                *self = Shape::QuadraticBezier(t);
                res
            },
            Shape::Ellipse(s) => {
                let mut t = *s;
                let res = t.mutate(width, height, rng, noise);
                *self = Shape::Ellipse(t);
                res
            },
            Shape::Rectangle(s) => {
                let mut t = *s;
                t.mutate(width, height, rng, noise);
                *self = Shape::Rectangle(t);
                Ok(())
            },
        }
    }

    /// A random valid shape of the given family, in black at the fitted
    /// alpha.
    pub fn random<N: Fn(&mut StdRng) -> i32>(
        kind: ShapeType,
        width: u32,
        height: u32,
        border_extension: i32,
        rng: &mut StdRng,
        noise: &N,
    ) -> (res: Result<Shape, ShapeError>)
        requires
            kind.spec_supported_on(width as int, height as int, border_extension as int),
            forall|g: &mut StdRng| call_requires(noise, (g,)),
        ensures
            res matches Ok(s) ==> s.spec_kind() == kind && s.spec_is_valid(
                width as int,
                height as int,
            ) && s.spec_color() == (Color { r: 0, g: 0, b: 0, a: 128 }),
            res is Ok ==> exists|fresh: Shape|
                fresh.spec_fresh(width as int, height as int, border_extension as int)
                    && #[trigger] (res->Ok_0).spec_mutated_from(fresh, width as int, height as int),
            res is Err ==> exists|fresh: Shape|
                fresh.spec_kind() == kind && fresh.spec_fresh(
                    width as int,
                    height as int,
                    border_extension as int,
                ) && #[trigger] fresh.spec_exhausted(width as int, height as int),
            kind == ShapeType::Rectangle || kind == ShapeType::CubicBezier ==> res is Ok,
    {
        match kind {
            ShapeType::Triangle => {
                match Triangle::random(width, height, border_extension, rng, noise) {
                    Ok(s) => {
                        let out: Result<Shape, ShapeError> = Ok(Shape::Triangle(s));
                        proof {
                            let start: Result<Triangle, ShapeError> = Ok(s);
                            let fresh = choose|fresh: Triangle|
                                fresh.spec_fresh(width as int, height as int, border_extension as int)
                                    && #[trigger] (start->Ok_0).spec_mutated_from(
                                    fresh,
                                    width as int,
                                    height as int,
                                );
                            assert(Shape::Triangle(fresh).spec_fresh(
                                width as int,
                                height as int,
                                border_extension as int,
                            ) && (out->Ok_0).spec_mutated_from(
                                Shape::Triangle(fresh),
                                width as int,
                                height as int,
                            ));
                        }
                        out
                    },
                    Err(e) => {
                        proof {
                            let fresh = choose|fresh: Triangle|
                                fresh.spec_fresh(width as int, height as int, border_extension as int)
                                    && #[trigger] fresh.spec_exhausted(
                                    width as int,
                                    height as int,
                                );
                            let start = Shape::Triangle(fresh);
                            assert(start.spec_kind() == kind && start.spec_fresh(
                                width as int,
                                height as int,
                                border_extension as int,
                            ) && start.spec_exhausted(width as int, height as int));
                        }
                        Err(e)
                    },
                }
            },
            ShapeType::CubicBezier => {
                let s = CubicBezier::random(width, height, border_extension, rng, noise);
                let out: Result<Shape, ShapeError> = Ok(Shape::CubicBezier(s));
                proof {
                    let fresh = choose|fresh: CubicBezier|
                        fresh.spec_fresh(width as int, height as int, border_extension as int)
                            && #[trigger] s.spec_mutation_of(
                            fresh,
                            width as int,
                            height as int,
                        );
                    assert(Shape::CubicBezier(fresh).spec_fresh(
                        width as int,
                        height as int,
                        border_extension as int,
                    ) && (out->Ok_0).spec_mutated_from(
                        Shape::CubicBezier(fresh),
                        width as int,
                        height as int,
                    ));
                }
                out
            },
            ShapeType::QuadraticBezier => {
                match QuadraticBezier::random(width, height, border_extension, rng, noise) {
                    Ok(s) => {
                        let out: Result<Shape, ShapeError> = Ok(Shape::QuadraticBezier(s));
                        proof {
                            let start: Result<QuadraticBezier, ShapeError> = Ok(s);
                            let fresh = choose|fresh: QuadraticBezier|
                                fresh.spec_fresh(width as int, height as int, border_extension as int)
                                    && #[trigger] (start->Ok_0).spec_mutated_from(
                                    fresh,
                                    width as int,
                                    height as int,
                                );
                            assert(Shape::QuadraticBezier(fresh).spec_fresh(
                                width as int,
                                height as int,
                                border_extension as int,
                            ) && (out->Ok_0).spec_mutated_from(
                                Shape::QuadraticBezier(fresh),
                                width as int,
                                height as int,
                            ));
                        }
                        out
                    },
                    Err(e) => {
                        proof {
                            let fresh = choose|fresh: QuadraticBezier|
                                fresh.spec_fresh(width as int, height as int, border_extension as int)
                                    && #[trigger] fresh.spec_exhausted(
                                    width as int,
                                    height as int,
                                );
                            let start = Shape::QuadraticBezier(fresh);
                            assert(start.spec_kind() == kind && start.spec_fresh(
                                width as int,
                                height as int,
                                border_extension as int,
                            ) && start.spec_exhausted(width as int, height as int));
                        }
                        Err(e)
                    },
                }
            },
            ShapeType::Ellipse => {
                match Ellipse::random(width, height, border_extension, rng, noise) {
                    Ok(s) => {
                        let out: Result<Shape, ShapeError> = Ok(Shape::Ellipse(s));
                        proof {
                            let start: Result<Ellipse, ShapeError> = Ok(s);
                            let fresh = choose|fresh: Ellipse|
                                fresh.spec_fresh(width as int, height as int)
                                    && #[trigger] (start->Ok_0).spec_mutated_from(
                                    fresh,
                                    width as int,
                                    height as int,
                                );
                            assert(Shape::Ellipse(fresh).spec_fresh(
                                width as int,
                                height as int,
                                border_extension as int,
                            ) && (out->Ok_0).spec_mutated_from(
                                Shape::Ellipse(fresh),
                                width as int,
                                height as int,
                            ));
                        }
                        out
                    },
                    Err(e) => {
                        proof {
                            let fresh = choose|fresh: Ellipse|
                                fresh.spec_fresh(width as int, height as int)
                                    && #[trigger] fresh.spec_exhausted(
                                    width as int,
                                    height as int,
                                );
                            let start = Shape::Ellipse(fresh);
                            assert(start.spec_kind() == kind && start.spec_fresh(
                                width as int,
                                height as int,
                                border_extension as int,
                            ) && start.spec_exhausted(width as int, height as int));
                        }
                        Err(e)
                    },
                }
            },
            ShapeType::Rectangle => {
                let s = Rectangle::random(width, height, border_extension, rng, noise);
                let out: Result<Shape, ShapeError> = Ok(Shape::Rectangle(s));
                proof {
                    let fresh = choose|fresh: Rectangle|
                        fresh.spec_fresh(width as int, height as int) && #[trigger] s.spec_mutation_of(
                            fresh,
                            width as int,
                            height as int,
                        );
                    assert(Shape::Rectangle(fresh).spec_fresh(
                        width as int,
                        height as int,
                        border_extension as int,
                    ) && (out->Ok_0).spec_mutated_from(
                        Shape::Rectangle(fresh),
                        width as int,
                        height as int,
                    ));
                }
                out
            },
        }
    }
}

} // verus!
