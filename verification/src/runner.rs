use crate::canvas::FITTED_ALPHA;
use crate::primitive_image::BORDER_EXTENSION;
use crate::primitive_image::PrimitiveImage;
use crate::random::uniform_i32;
use crate::shape::Shape;
use crate::shape::ShapeError;
use crate::shape::ShapeType;
use rand::rngs::StdRng;
use vstd::prelude::*;
use vstd::string::StringExecFns;

verus! {

/// What a run fits: shapes of one family, or of a family drawn afresh for
/// each attempt.
#[derive(Debug, Copy, Clone, PartialEq, Eq, Structural)]
pub enum ShapeSelector {
    Only(ShapeType),
    Mixed,
}

/// The selector that a name stands for, if it stands for any. The names are
/// `TRIANGLE`, `QUADRATIC`, `CUBIC`, `RECTANGLE`, `ELLIPSE` and `MIXED`.
pub open spec fn spec_parse_selector(name: Seq<char>) -> Option<ShapeSelector> {
    if name == "TRIANGLE"@ {
        Some(ShapeSelector::Only(ShapeType::Triangle))
    } else if name == "QUADRATIC"@ {
        Some(ShapeSelector::Only(ShapeType::QuadraticBezier))
    } else if name == "CUBIC"@ {
        Some(ShapeSelector::Only(ShapeType::CubicBezier))
    } else if name == "RECTANGLE"@ {
        Some(ShapeSelector::Only(ShapeType::Rectangle))
    } else if name == "ELLIPSE"@ {
        Some(ShapeSelector::Only(ShapeType::Ellipse))
    } else if name == "MIXED"@ {
        Some(ShapeSelector::Mixed)
    } else {
        None
    }
}

/// Reads a selector from its name. Any other text is no selector.
pub fn parse_selector(name: &str) -> (selector: Option<ShapeSelector>)
    ensures
        selector == spec_parse_selector(name@),
{
    let text = String::from_str(name);
    if text == String::from_str("TRIANGLE") {
        Some(ShapeSelector::Only(ShapeType::Triangle))
    } else if text == String::from_str("QUADRATIC") {
        Some(ShapeSelector::Only(ShapeType::QuadraticBezier))
    } else if text == String::from_str("CUBIC") {
        Some(ShapeSelector::Only(ShapeType::CubicBezier))
    } else if text == String::from_str("RECTANGLE") {
        Some(ShapeSelector::Only(ShapeType::Rectangle))
    } else if text == String::from_str("ELLIPSE") {
        Some(ShapeSelector::Only(ShapeType::Ellipse))
    } else if text == String::from_str("MIXED") {
        Some(ShapeSelector::Mixed)
    } else {
        None
    }
}

/// The kinds of file in which a result can be saved.
#[derive(Debug, Copy, Clone, PartialEq, Eq, Structural)]
pub enum OutputFormat {
    /// Vector markup.
    Svg,
    /// A raster image, encoded as the extension says.
    Raster,
}

/// The kind of file that an extension stands for: `svg` for vector markup,
/// `png`, `jpg`, `bmp`, `ico` and `gif` for a raster image, and any other for
/// none.
pub open spec fn spec_output_format(extension: Seq<char>) -> Option<OutputFormat> {
    if extension == "svg"@ {
        Some(OutputFormat::Svg)
    } else if extension == "png"@ || extension == "jpg"@ || extension == "bmp"@ || extension
        == "ico"@ || extension == "gif"@ {
        Some(OutputFormat::Raster)
    } else {
        None
    }
}

/// Tells from a file extension how a result is to be saved.
pub fn output_format(extension: &str) -> (format: Option<OutputFormat>)
    ensures
        format == spec_output_format(extension@),
{
    let text = String::from_str(extension);
    if text == String::from_str("svg") {
        Some(OutputFormat::Svg)
    } else if text == String::from_str("png") || text == String::from_str("jpg") || text
        == String::from_str("bmp") || text == String::from_str("ico") || text == String::from_str(
        "gif",
    ) {
        Some(OutputFormat::Raster)
    } else {
        None
    }
}

/// The family that a draw from zero up to four stands for in a mixed run.
pub open spec fn spec_family_of_draw(draw: int) -> ShapeType {
    if draw == 0 {
        ShapeType::Triangle
    } else if draw == 1 {
        ShapeType::QuadraticBezier
    } else if draw == 2 {
        ShapeType::CubicBezier
    } else if draw == 3 {
        ShapeType::Rectangle
    } else {
        ShapeType::Ellipse
    }
}

pub fn family_of_draw(draw: i32) -> (family: ShapeType)
    requires
        0 <= draw < 5,
    ensures
        family == spec_family_of_draw(draw as int),
{
    if draw == 0 {
        ShapeType::Triangle
    } else if draw == 1 {
        ShapeType::QuadraticBezier
    } else if draw == 2 {
        ShapeType::CubicBezier
    } else if draw == 3 {
        ShapeType::Rectangle
    } else {
        ShapeType::Ellipse
    }
}

impl ShapeSelector {
    /// Whether every family that the selector can ask for can be generated
    /// on a `width` by `height` canvas.
    pub open spec fn spec_supported_on(&self, width: int, height: int) -> bool {
        match self {
            ShapeSelector::Only(family) => family.spec_supported_on(
                width,
                height,
                BORDER_EXTENSION as int,
            ),
            ShapeSelector::Mixed => forall|draw: int|
                0 <= draw < 5 ==> (#[trigger] spec_family_of_draw(draw)).spec_supported_on(
                    width,
                    height,
                    BORDER_EXTENSION as int,
                ),
        }
    }

    pub fn supported_on(&self, width: u32, height: u32) -> (supported: bool)
        ensures
            supported == self.spec_supported_on(width as int, height as int),
    {
        match self {
            ShapeSelector::Only(family) => family.supported_on(width, height, BORDER_EXTENSION),
            ShapeSelector::Mixed => {
                let all = ShapeType::Triangle.supported_on(width, height, BORDER_EXTENSION)
                    && ShapeType::Rectangle.supported_on(width, height, BORDER_EXTENSION)
                    && ShapeType::Ellipse.supported_on(width, height, BORDER_EXTENSION);
                proof {
                    assert(spec_family_of_draw(0) == ShapeType::Triangle);
                    assert(spec_family_of_draw(3) == ShapeType::Rectangle);
                    assert(spec_family_of_draw(4) == ShapeType::Ellipse);
                }
                all
            },
        }
    }

    /// Whether an attempt under this selector can be for the family
    /// `family`: the one that the selector names, or for a mixed run any that
    /// a draw stands for.
    pub open spec fn spec_admits(&self, family: ShapeType) -> bool {
        match *self {
            ShapeSelector::Only(named) => family == named,
            ShapeSelector::Mixed => exists|draw: int|
                0 <= draw < 5 && family == #[trigger] spec_family_of_draw(draw),
        }
    }

    /// The family of the next attempt: the one that the selector names, or
    /// for a mixed run one drawn from all five.
    pub fn pick(&self, rng: &mut StdRng) -> (family: ShapeType)
        ensures
            self.spec_admits(family),
    {
        match self {
            ShapeSelector::Only(named) => *named,
            ShapeSelector::Mixed => {
                let draw: i32 = uniform_i32(rng, 0, 5);
                family_of_draw(draw)
            },
        }
    }
}

/// One attempt of a run: chooses the family as the selector says and tries to
/// add a shape of it to the session. A run makes such attempts until as many
/// shapes were accepted as it was asked for, and counts an attempt that
/// returns `Ok(false)` as nothing but a reason to try again.
pub fn attempt<N: Fn(&mut StdRng) -> i32>(
    image: &mut PrimitiveImage,
    max_age: u32,
    selector: &ShapeSelector,
    rng: &mut StdRng,
    noise: &N,
) -> (res: Result<bool, ShapeError>)
    requires
        old(image).wf(),
        selector.spec_supported_on(old(image).spec_width(), old(image).spec_height()),
        forall|g: &mut StdRng| call_requires(noise, (g,)),
    ensures
        final(image).wf(),
        res matches Ok(accepted) ==> exists|shape: Shape, first: Shape, tried: Seq<Shape>|
            {
                &&& #[trigger] old(image).spec_search_end(
                    shape,
                    shape.spec_kind(),
                    max_age as int,
                    first,
                    tried,
                )
                &&& selector.spec_admits(shape.spec_kind())
                &&& accepted == (old(image).spec_squared_error_with(shape) < old(
                    image,
                ).spec_squared_error())
                &&& accepted ==> final(image).spec_accepted(old(image), shape)
                    && shape.spec_color().a == FITTED_ALPHA
            },
        res is Err ==> exists|start: Shape|
            selector.spec_admits(start.spec_kind()) && #[trigger] old(image).spec_gave_up_at(start),
        *selector == ShapeSelector::Only(ShapeType::Rectangle) || *selector == ShapeSelector::Only(
            ShapeType::CubicBezier,
        ) ==> res is Ok,
        res matches Ok(true) ==> exists|shape: Shape|
            {
                &&& #[trigger] final(image).spec_accepted(old(image), shape)
                &&& shape.spec_is_valid(old(image).spec_width(), old(image).spec_height())
                &&& shape.spec_fitted_to(old(image).spec_target())
                &&& shape.spec_color().a == FITTED_ALPHA
                &&& (*selector matches ShapeSelector::Only(named) ==> shape.spec_kind() == named)
            },
        res matches Ok(true) ==> final(image).spec_squared_error() < old(image).spec_squared_error(),
        !(res matches Ok(true)) ==> *final(image) == *old(image),
{
    let family = selector.pick(rng);
    let res = image.add_new_shape(max_age, &family, rng, noise);
    proof {
        let width = old(image).spec_width();
        let height = old(image).spec_height();
        match res {
            Ok(accepted) => {
                let (shape, first, tried) = choose|shape: Shape, first: Shape, tried: Seq<Shape>|
                    {
                        &&& #[trigger] old(image).spec_search_end(
                            shape,
                            family,
                            max_age as int,
                            first,
                            tried,
                        )
                        &&& accepted == (old(image).spec_squared_error_with(shape) < old(
                            image,
                        ).spec_squared_error())
                        &&& accepted ==> image.spec_accepted(old(image), shape)
                            && shape.spec_color().a == FITTED_ALPHA
                    };
                assert(old(image).spec_search_end(
                    shape,
                    shape.spec_kind(),
                    max_age as int,
                    first,
                    tried,
                ));
            },
            Err(_) => {
                let start = choose|start: Shape|
                    start.spec_kind() == family && #[trigger] old(image).spec_gave_up_at(start);
                assert(selector.spec_admits(start.spec_kind()) && old(image).spec_gave_up_at(
                    start,
                ));
            },
        }
    }
    res
}

} // verus!
