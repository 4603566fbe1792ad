use crate::arithmetic::truncated_quotient;
use crate::arithmetic::truncating_div;
use crate::point::PrimitivePoint;
use crate::utilities::larger;
use crate::utilities::saturate;
use crate::utilities::spec_larger;
use crate::utilities::spec_saturate;
use vstd::prelude::*;

verus! {

/// A positive factor, given as a fraction. A session keeps the ratio of its
/// working resolution to the resolution of the image it was made from.
#[derive(Debug, Copy, Clone, PartialEq, Eq, Structural)]
pub struct Ratio {
    pub numerator: u32,
    pub denominator: u32,
}

/// `length * numerator / denominator` rounded down and held at the end of
/// the 32-bit range.
pub open spec fn spec_scaled_length(length: int, numerator: int, denominator: int) -> int {
    let exact = (length * numerator) / denominator;
    if exact > u32::MAX { u32::MAX as int } else { exact }
}

/// `value * numerator / denominator` rounded toward zero and held at the
/// ends of the 32-bit range.
pub open spec fn spec_scaled_coordinate(value: int, numerator: int, denominator: int) -> int {
    spec_saturate(truncated_quotient(value * numerator, denominator))
}

impl Ratio {
    /// Both parts of a ratio are positive.
    pub open spec fn wf(&self) -> bool {
        self.numerator > 0 && self.denominator > 0
    }

    /// The factor one.
    pub fn one() -> (r: Ratio)
        ensures
            r == (Ratio { numerator: 1, denominator: 1 }),
            r.wf(),
    {
        Ratio { numerator: 1, denominator: 1 }
    }

    /// The factor that brings the larger side of a `width` by `height` image
    /// to `scale_to` pixels. A `scale_to` of zero asks for no scaling, and an
    /// empty image cannot be scaled: both give the factor one.
    pub open spec fn spec_fitting(width: u32, height: u32, scale_to: u32) -> Ratio {
        if scale_to > 0 && spec_larger(width as int, height as int) > 0 {
            Ratio { numerator: scale_to, denominator: spec_larger(width as int, height as int) as u32 }
        } else {
            Ratio { numerator: 1, denominator: 1 }
        }
    }

    pub fn fitting(width: u32, height: u32, scale_to: u32) -> (r: Ratio)
        ensures
            r == Self::spec_fitting(width, height, scale_to),
            r.wf(),
    {
        let most: u32 = larger(width, height);
        if scale_to > 0 && most > 0 {
            Ratio { numerator: scale_to, denominator: most }
        } else {
            Ratio { numerator: 1, denominator: 1 }
        }
    }

    /// The factor that undoes this one.
    pub fn inverse(&self) -> (r: Ratio)
        ensures
            r == (Ratio { numerator: self.denominator, denominator: self.numerator }),
            self.wf() ==> r.wf(),
    {
        Ratio { numerator: self.denominator, denominator: self.numerator }
    }

    /// A length times the factor, rounded down.
    pub fn scale_length(&self, length: u32) -> (scaled: u32)
        requires
            self.wf(),
        ensures
            scaled == spec_scaled_length(
                length as int,
                self.numerator as int,
                self.denominator as int,
            ),
    {
        assert(length * self.numerator <= 0xffff_ffff * 0xffff_ffff) by (nonlinear_arith)
            requires
                0 <= length <= 0xffff_ffff,
                0 <= self.numerator <= 0xffff_ffff,
        ;
        let exact: u64 = (length as u64 * self.numerator as u64) / self.denominator as u64;
        if exact > u32::MAX as u64 { u32::MAX } else { exact as u32 }
    }

    /// A coordinate times the factor, rounded toward zero.
    pub fn scale_coordinate(&self, value: i32) -> (scaled: i32)
        requires
            self.wf(),
        ensures
            scaled == spec_scaled_coordinate(
                value as int,
                self.numerator as int,
                self.denominator as int,
            ),
    {
        assert(-0x8000_0000 * 0xffff_ffff <= value * self.numerator <= 0x8000_0000 * 0xffff_ffff)
            by (nonlinear_arith)
            requires
                -0x8000_0000 <= value <= 0x8000_0000,
                0 <= self.numerator <= 0xffff_ffff,
        ;
        saturate(truncating_div(value as i128 * self.numerator as i128, self.denominator as i128))
    }

    /// A point with both coordinates scaled.
    pub open spec fn spec_scale_point(&self, p: PrimitivePoint) -> PrimitivePoint {
        PrimitivePoint {
            x: spec_scaled_coordinate(p.x as int, self.numerator as int, self.denominator as int) as i32,
            y: spec_scaled_coordinate(p.y as int, self.numerator as int, self.denominator as int) as i32,
        }
    }

    pub fn scale_point(&self, p: PrimitivePoint) -> (scaled: PrimitivePoint)
        requires
            self.wf(),
        ensures
            scaled == self.spec_scale_point(p),
    {
        PrimitivePoint { x: self.scale_coordinate(p.x), y: self.scale_coordinate(p.y) }
    }
}

/// The size at which a `width` by `height` image is searched when its larger
/// side is to be `scale_to` pixels: both sides times the fitting factor,
/// rounded down. With a `scale_to` of zero it is the size of the image.
pub fn working_size(width: u32, height: u32, scale_to: u32) -> (size: (u32, u32))
    ensures
        size.0 == spec_scaled_length(
            width as int,
            Ratio::spec_fitting(width, height, scale_to).numerator as int,
            Ratio::spec_fitting(width, height, scale_to).denominator as int,
        ),
        size.1 == spec_scaled_length(
            height as int,
            Ratio::spec_fitting(width, height, scale_to).numerator as int,
            Ratio::spec_fitting(width, height, scale_to).denominator as int,
        ),
        scale_to == 0 ==> size == (width, height),
        scale_to > 0 && (width > 0 || height > 0) ==> spec_larger(size.0 as int, size.1 as int)
            == scale_to,
{
    let factor = Ratio::fitting(width, height, scale_to);
    proof {
        let most = spec_larger(width as int, height as int);
        if scale_to > 0 && most > 0 {
            lemma_fitting_exact(most, scale_to as int);
            let least = if width >= height { height as int } else { width as int };
            lemma_fitting_below(least, most, scale_to as int);
        } else {
            assert((width * 1) / 1 == width && (height * 1) / 1 == height);
        }
    }
    (factor.scale_length(width), factor.scale_length(height))
}

proof fn lemma_fitting_exact(most: int, scale_to: int)
    requires
        most > 0,
        scale_to >= 0,
    ensures
        (most * scale_to) / most == scale_to,
{
    assert((most * scale_to) / most == scale_to) by (nonlinear_arith)
        requires
            most > 0,
            scale_to >= 0,
    ;
}

proof fn lemma_fitting_below(least: int, most: int, scale_to: int)
    requires
        0 <= least <= most,
        most > 0,
        scale_to >= 0,
    ensures
        0 <= (least * scale_to) / most <= scale_to,
{
    assert(0 <= least * scale_to <= most * scale_to) by (nonlinear_arith)
        requires
            0 <= least <= most,
            scale_to >= 0,
    ;
    lemma_fitting_exact(most, scale_to);
    vstd::arithmetic::div_mod::lemma_div_is_ordered(least * scale_to, most * scale_to, most);
    vstd::arithmetic::div_mod::lemma_div_pos_is_pos(least * scale_to, most);
}

} // verus!
