use crate::arithmetic::TRIG_ONE;
use crate::arithmetic::cosine;
use crate::arithmetic::sine;
use crate::arithmetic::spec_cosine;
use crate::arithmetic::spec_sine;
use crate::arithmetic::truncated_quotient;
use crate::arithmetic::truncating_div;
use crate::canvas::Color;
use crate::point::PrimitivePoint;
use crate::random::clock_reading;
use crate::random::seeded;
use crate::random::seeded_rng;
use rand::rngs::StdRng;
use vstd::prelude::*;
use vstd::string::StrSliceExecFns;
use vstd::string::StringExecFns;

verus! {

/// `value` confined to the closed interval `[min_v, max_v]`; the lower bound
/// wins when the interval is empty.
pub open spec fn spec_clamp(value: int, min_v: int, max_v: int) -> int {
    let capped = if value > max_v { max_v } else { value };
    if capped < min_v { min_v } else { capped }
}

/// Confines `value` to `[min_v, max_v]`.
pub fn clamp(value: i32, min_v: i32, max_v: i32) -> (r: i32)
    ensures
        r == spec_clamp(value as int, min_v as int, max_v as int),
        min_v <= max_v ==> min_v <= r <= max_v,
        min_v <= value <= max_v ==> r == value,
{
    let capped: i32 = if value > max_v { max_v } else { value };
    if capped < min_v { min_v } else { capped }
}

/// The larger of the two sides of a canvas.
pub open spec fn spec_larger(width: int, height: int) -> int {
    if width >= height { width } else { height }
}

pub fn larger(width: u32, height: u32) -> (m: u32)
    ensures
        m == spec_larger(width as int, height as int),
{
    if width >= height { width } else { height }
}

/// `value` held at the ends of the 32-bit range.
pub open spec fn spec_saturate(value: int) -> int {
    spec_clamp(value, i32::MIN as int, i32::MAX as int)
}

/// Holds a 128-bit value at the ends of the 32-bit range.
pub fn saturate(value: i128) -> (r: i32)
    ensures
        r == spec_saturate(value as int),
{
    if value > i32::MAX as i128 {
        i32::MAX
    } else if value < i32::MIN as i128 {
        i32::MIN
    } else {
        value as i32
    }
}

/// The seed that a reading of the clock gives: the seconds times a thousand
/// plus the nanoseconds beyond them, cut to 64 bits.
pub open spec fn spec_time_seed(seconds: u64, nanos: u32) -> u64 {
    ((seconds * 1000 + nanos) % 0x1_0000_0000_0000_0000) as u64
}

pub fn time_seed(seconds: u64, nanos: u32) -> (seed: u64)
    ensures
        seed == spec_time_seed(seconds, nanos),
{
    let thousands: u64 = seconds.wrapping_mul(1000);
    thousands.wrapping_add(nanos as u64)
}

/// A generator for one whole run. A non-zero `seed` fixes its stream, so that
/// the run can be repeated; zero asks for a seed taken from the clock, as
/// `time_seed` makes it. A clock that stands before the epoch counts as one
/// that stands at it.
pub fn get_rng(seed: u64) -> (rng: StdRng)
    ensures
        seed != 0 ==> rng == seeded(seed),
        seed == 0 ==> exists|seconds: u64, nanos: u32|
            rng == seeded(#[trigger] spec_time_seed(seconds, nanos)),
{
    if seed != 0 {
        seeded_rng(seed)
    } else {
        let (seconds, nanos) = match clock_reading() {
            Some(reading) => reading,
            None => (0, 0),
        };
        let rng = seeded_rng(time_seed(seconds, nanos));
        assert(rng == seeded(spec_time_seed(seconds, nanos)));
        rng
    }
}

/// The upper-case hexadecimal digit of a value below sixteen.
pub open spec fn spec_hex_digit(value: int) -> char {
    if value == 0 {
        '0'
    } else if value == 1 {
        '1'
    } else if value == 2 {
        '2'
    } else if value == 3 {
        '3'
    } else if value == 4 {
        '4'
    } else if value == 5 {
        '5'
    } else if value == 6 {
        '6'
    } else if value == 7 {
        '7'
    } else if value == 8 {
        '8'
    } else if value == 9 {
        '9'
    } else if value == 10 {
        'A'
    } else if value == 11 {
        'B'
    } else if value == 12 {
        'C'
    } else if value == 13 {
        'D'
    } else if value == 14 {
        'E'
    } else {
        'F'
    }
}

pub fn hex_digit(value: u8) -> (digit: &'static str)
    requires
        value < 16,
    ensures
        digit@ == seq![spec_hex_digit(value as int)],
{
    proof {
        reveal_strlit("0");
        reveal_strlit("1");
        reveal_strlit("2");
        reveal_strlit("3");
        reveal_strlit("4");
        reveal_strlit("5");
        reveal_strlit("6");
        reveal_strlit("7");
        reveal_strlit("8");
        reveal_strlit("9");
        reveal_strlit("A");
        reveal_strlit("B");
        reveal_strlit("C");
        reveal_strlit("D");
        reveal_strlit("E");
        reveal_strlit("F");
    }
    let digit: &'static str = if value == 0 {
        "0"
    } else if value == 1 {
        "1"
    } else if value == 2 {
        "2"
    } else if value == 3 {
        "3"
    } else if value == 4 {
        "4"
    } else if value == 5 {
        "5"
    } else if value == 6 {
        "6"
    } else if value == 7 {
        "7"
    } else if value == 8 {
        "8"
    } else if value == 9 {
        "9"
    } else if value == 10 {
        "A"
    } else if value == 11 {
        "B"
    } else if value == 12 {
        "C"
    } else if value == 13 {
        "D"
    } else if value == 14 {
        "E"
    } else {
        "F"
    };
    assert(digit@ =~= seq![spec_hex_digit(value as int)]);
    digit
}

/// The colour as a hash sign and six upper-case hexadecimal digits, two for
/// each of red, green and blue. The alpha is left out.
pub open spec fn spec_rgb_to_hex(color: Color) -> Seq<char> {
    seq![
        '#',
        spec_hex_digit(color.r as int / 16),
        spec_hex_digit(color.r as int % 16),
        spec_hex_digit(color.g as int / 16),
        spec_hex_digit(color.g as int % 16),
        spec_hex_digit(color.b as int / 16),
        spec_hex_digit(color.b as int % 16),
    ]
}

/// Writes the colour as `#RRGGBB`.
pub fn rgb_to_hex(color: Color) -> (hex: String)
    ensures
        hex@ == spec_rgb_to_hex(color),
{
    proof {
        reveal_strlit("#");
    }
    let mut hex = String::from_str("#");
    hex.append(hex_digit(color.r / 16));
    hex.append(hex_digit(color.r % 16));
    hex.append(hex_digit(color.g / 16));
    hex.append(hex_digit(color.g % 16));
    hex.append(hex_digit(color.b / 16));
    hex.append(hex_digit(color.b % 16));
    assert(hex@ =~= spec_rgb_to_hex(color));
    hex
}

/// The value of a hexadecimal digit, of either case.
pub open spec fn spec_hex_value(digit: char) -> Option<u8> {
    let code = digit as u32;
    if 48 <= code <= 57 {
        Some((code - 48) as u8)
    } else if 65 <= code <= 70 {
        Some((code - 55) as u8)
    } else if 97 <= code <= 102 {
        Some((code - 87) as u8)
    } else {
        None
    }
}

pub fn hex_value(digit: char) -> (value: Option<u8>)
    ensures
        value == spec_hex_value(digit),
        value matches Some(v) ==> v < 16,
{
    let code: u32 = digit as u32;
    if 48 <= code && code <= 57 {
        Some((code - 48) as u8)
    } else if 65 <= code && code <= 70 {
        Some((code - 55) as u8)
    } else if 97 <= code && code <= 102 {
        Some((code - 87) as u8)
    } else {
        None
    }
}

/// The channel that two hexadecimal digits stand for, if both are digits.
pub open spec fn spec_hex_pair(high: char, low: char) -> Option<u8> {
    match (spec_hex_value(high), spec_hex_value(low)) {
        (Some(h), Some(l)) => Some((16 * h + l) as u8),
        _ => None,
    }
}

fn hex_pair(high: char, low: char) -> (value: Option<u8>)
    ensures
        value == spec_hex_pair(high, low),
{
    match (hex_value(high), hex_value(low)) {
        (Some(h), Some(l)) => Some(16 * h + l),
        _ => None,
    }
}

/// The colour that `text` stands for as a background: exactly six
/// hexadecimal digits, two for each of red, green and blue. Its alpha is
/// zero. Any other text stands for no colour.
pub open spec fn spec_parse_rgb(text: Seq<char>) -> Option<Color> {
    if text.len() != 6 {
        None
    } else {
        match (
            spec_hex_pair(text[0], text[1]),
            spec_hex_pair(text[2], text[3]),
            spec_hex_pair(text[4], text[5]),
        ) {
            (Some(r), Some(g), Some(b)) => Some(Color { r, g, b, a: 0 }),
            _ => None,
        }
    }
}

/// Reads a colour from six hexadecimal digits.
pub fn parse_rgb(text: &str) -> (color: Option<Color>)
    ensures
        color == spec_parse_rgb(text@),
{
    if text.unicode_len() != 6 {
        return None;
    }
    let red = hex_pair(text.get_char(0), text.get_char(1));
    let green = hex_pair(text.get_char(2), text.get_char(3));
    let blue = hex_pair(text.get_char(4), text.get_char(5));
    match (red, green, blue) {
        (Some(r), Some(g), Some(b)) => Some(Color { r, g, b, a: 0 }),
        _ => None,
    }
}

/// The point that lies at the offset `(dx, dy)` from `center`, turned about
/// `center` by `angle` degrees. Each rotated offset is rounded toward zero
/// before `center` is added, and a coordinate that leaves the 32-bit range is
/// held at its end.
pub open spec fn spec_rotated(dx: int, dy: int, center: PrimitivePoint, angle: int) -> PrimitivePoint {
    let c = spec_cosine(angle);
    let s = spec_sine(angle);
    PrimitivePoint {
        x: spec_saturate(truncated_quotient(dx * c - dy * s, TRIG_ONE as int) + center.x) as i32,
        y: spec_saturate(truncated_quotient(dx * s + dy * c, TRIG_ONE as int) + center.y) as i32,
    }
}

/// Turns the offset `(dx, dy)` about `center` by `angle` degrees.
pub fn rotate_offset(dx: i64, dy: i64, center: PrimitivePoint, angle: u32) -> (p: PrimitivePoint)
    ensures
        p == spec_rotated(dx as int, dy as int, center, angle as int),
{
    let c: i128 = cosine(angle) as i128;
    let s: i128 = sine(angle) as i128;
    let wide_dx: i128 = dx as i128;
    let wide_dy: i128 = dy as i128;
    proof {
        lemma_scaled_bounds(wide_dx as int, c as int);
        lemma_scaled_bounds(wide_dy as int, s as int);
        lemma_scaled_bounds(wide_dx as int, s as int);
        lemma_scaled_bounds(wide_dy as int, c as int);
    }
    let turned_x: i128 = truncating_div(wide_dx * c - wide_dy * s, TRIG_ONE as i128);
    let turned_y: i128 = truncating_div(wide_dx * s + wide_dy * c, TRIG_ONE as i128);
    proof {
        lemma_truncated_bounds(wide_dx * c - wide_dy * s, TRIG_ONE as int);
        lemma_truncated_bounds(wide_dx * s + wide_dy * c, TRIG_ONE as int);
    }
    PrimitivePoint {
        x: saturate(turned_x + center.x as i128),
        y: saturate(turned_y + center.y as i128),
    }
}

/// Turns `point` about `center` by `angle` degrees.
pub fn rotate_point(point: &mut PrimitivePoint, center: PrimitivePoint, angle: u32)
    ensures
        *final(point) == spec_rotated(
            old(point).x - center.x,
            old(point).y - center.y,
            center,
            angle as int,
        ),
{
    let dx: i64 = point.x as i64 - center.x as i64;
    let dy: i64 = point.y as i64 - center.y as i64;
    *point = rotate_offset(dx, dy, center, angle);
}

proof fn lemma_scaled_bounds(d: int, t: int)
    requires
        -0x8000_0000_0000_0000 <= d <= 0x8000_0000_0000_0000,
        -0x4000_0000 <= t <= 0x4000_0000,
    ensures
        -0x2000_0000_0000_0000_0000_0000 <= d * t <= 0x2000_0000_0000_0000_0000_0000,
{
    assert(-0x2000_0000_0000_0000_0000_0000 <= d * t <= 0x2000_0000_0000_0000_0000_0000)
        by (nonlinear_arith)
        requires
            -0x8000_0000_0000_0000 <= d <= 0x8000_0000_0000_0000,
            -0x4000_0000 <= t <= 0x4000_0000,
    ;
}

proof fn lemma_truncated_bounds(n: int, d: int)
    requires
        d > 0,
    ensures
        n >= 0 ==> 0 <= truncated_quotient(n, d) <= n,
        n <= 0 ==> n <= truncated_quotient(n, d) <= 0,
{
    if n >= 0 {
        assert(0 <= n / d <= n) by (nonlinear_arith)
            requires
                n >= 0,
                d > 0,
        ;
    } else {
        let m = -n;
        assert(0 <= m / d <= m) by (nonlinear_arith)
            requires
                m >= 0,
                d > 0,
        ;
    }
}

} // verus!
