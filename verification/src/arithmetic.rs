use vstd::prelude::*;

verus! {

/// One, in the fixed-point scale of the sine table.
pub const TRIG_ONE: i64 = 0x4000_0000;

/// The sines of 0 to 90 whole degrees, scaled by `TRIG_ONE` and rounded to
/// the nearest integer.
pub const QUARTER_SINE: [i64; 91] = [
    0, 18739379, 37473049, 56195305, 74900443, 93582766, 112236583,
    130856211, 149435979, 167970228, 186453311, 204879599, 223243478, 241539355,
    259761657, 277904834, 295963357, 313931728, 331804471, 349576144, 367241333,
    384794656, 402230767, 419544355, 436730145, 453782903, 470697435, 487468587,
    504091252, 520560366, 536870912, 553017922, 568996477, 584801711, 600428808,
    615873009, 631129609, 646193961, 661061475, 675727625, 690187940, 704438018,
    718473518, 732290163, 745883746, 759250125, 772385229, 785285058, 797945680,
    810363241, 822533958, 834454122, 846120104, 857528349, 868675383, 879557810,
    890172315, 900515665, 910584710, 920376381, 929887697, 939115760, 948057759,
    956710970, 965072759, 973140576, 980911966, 988384560, 995556083, 1002424350,
    1008987269, 1015242840, 1021189159, 1026824413, 1032146887, 1037154959, 1041847103,
    1046221891, 1050277989, 1054014162, 1057429273, 1060522280, 1063292242, 1065738315,
    1067859754, 1069655912, 1071126243, 1072270298, 1073087729, 1073578288, 1073741824,
];

/// The sine of `angle` degrees, scaled by `TRIG_ONE`: the table entry that
/// the symmetries of the sine lead to.
pub open spec fn spec_sine(angle: int) -> int {
    let a = angle % 360;
    if a <= 90 {
        QUARTER_SINE[a] as int
    } else if a <= 180 {
        QUARTER_SINE[180 - a] as int
    } else if a <= 270 {
        -(QUARTER_SINE[a - 180] as int)
    } else {
        -(QUARTER_SINE[360 - a] as int)
    }
}

/// The cosine of `angle` degrees, scaled by `TRIG_ONE`.
pub open spec fn spec_cosine(angle: int) -> int {
    spec_sine(angle + 90)
}

pub fn sine(angle: u32) -> (s: i64)
    ensures
        s == spec_sine(angle as int),
        -TRIG_ONE <= s <= TRIG_ONE,
{
    let a: usize = (angle % 360) as usize;
    let s: i64 = if a <= 90 {
        QUARTER_SINE[a]
    } else if a <= 180 {
        QUARTER_SINE[180 - a]
    } else if a <= 270 {
        -QUARTER_SINE[a - 180]
    } else {
        -QUARTER_SINE[360 - a]
    };
    proof {
        lemma_quarter_sine_bounds();
    }
    s
}

pub fn cosine(angle: u32) -> (c: i64)
    ensures
        c == spec_cosine(angle as int),
        -TRIG_ONE <= c <= TRIG_ONE,
{
    sine(angle % 360 + 90)
}

/// No entry of the table leaves the interval from zero to `TRIG_ONE`.
pub proof fn lemma_quarter_sine_bounds()
    ensures
        forall|i: int| 0 <= i <= 90 ==> 0 <= #[trigger] QUARTER_SINE[i] <= TRIG_ONE,
{
    assert forall|i: int| 0 <= i <= 90 implies 0 <= #[trigger] QUARTER_SINE[i] <= TRIG_ONE by {
        if i < 16 {
        } else if i < 32 {
        } else if i < 48 {
        } else if i < 64 {
        } else if i < 80 {
        } else {
        }
    }
}

/// `n / d` rounded toward zero, for a positive `d`.
pub open spec fn truncated_quotient(n: int, d: int) -> int {
    if n >= 0 {
        n / d
    } else {
        -((-n) / d)
    }
}

pub fn truncating_div(n: i128, d: i128) -> (q: i128)
    requires
        d > 0,
        n > i128::MIN,
    ensures
        q == truncated_quotient(n as int, d as int),
{
    if n >= 0 {
        n / d
    } else {
        let m: i128 = -n;
        assert(0 <= m / d <= m) by (nonlinear_arith)
            requires
                m >= 0,
                d > 0,
        ;
        -(m / d)
    }
}

/// Whether `r` is the integer square root of `v`: the largest integer whose
/// square does not exceed `v`.
pub open spec fn is_floor_sqrt(r: int, v: int) -> bool {
    0 <= r && r * r <= v < (r + 1) * (r + 1)
}

/// The integer square root of `v`.
pub open spec fn floor_sqrt(v: int) -> int {
    choose|r: int| is_floor_sqrt(r, v)
}

/// A number has at most one integer square root.
pub proof fn lemma_floor_sqrt_unique(r: int, s: int, v: int)
    requires
        is_floor_sqrt(r, v),
        is_floor_sqrt(s, v),
    ensures
        r == s,
{
    if r < s {
        assert((r + 1) * (r + 1) <= s * s) by (nonlinear_arith)
            requires
                0 <= r + 1 <= s,
        ;
    } else if s < r {
        assert((s + 1) * (s + 1) <= r * r) by (nonlinear_arith)
            requires
                0 <= s + 1 <= r,
        ;
    }
}

/// Every natural number has an integer square root.
pub proof fn lemma_floor_sqrt_exists(v: int)
    requires
        v >= 0,
    ensures
        is_floor_sqrt(floor_sqrt(v), v),
    decreases v,
{
    if v == 0 {
        assert(is_floor_sqrt(0, 0));
    } else {
        lemma_floor_sqrt_exists(v - 1);
        let r = floor_sqrt(v - 1);
        assert((r + 1) * (r + 1) == r * r + 2 * r + 1) by (nonlinear_arith);
        assert((r + 2) * (r + 2) == r * r + 4 * r + 4) by (nonlinear_arith);
        if (r + 1) * (r + 1) <= v {
            assert(is_floor_sqrt(r + 1, v));
        } else {
            assert(is_floor_sqrt(r, v));
        }
    }
}

/// Computes the integer square root by bisection.
pub fn isqrt(v: u128) -> (r: u128)
    ensures
        is_floor_sqrt(r as int, v as int),
        r == floor_sqrt(v as int),
        r < 0x1_0000_0000_0000_0000,
{
    let mut lo: u128 = 0;
    let mut hi: u128 = 0x1_0000_0000_0000_0000;
    assert(hi * hi > v) by (nonlinear_arith)
        requires
            hi == 0x1_0000_0000_0000_0000,
            v <= u128::MAX,
    ;
    while hi - lo > 1
        invariant
            lo < hi <= 0x1_0000_0000_0000_0000,
            lo * lo <= v < hi * hi,
        decreases hi - lo,
    {
        let mid: u128 = lo + (hi - lo) / 2;
        assert(mid * mid <= 0xffff_ffff_ffff_ffff * 0xffff_ffff_ffff_ffff) by (nonlinear_arith)
            requires
                0 <= mid <= 0xffff_ffff_ffff_ffff,
        ;
        if mid * mid <= v {
            lo = mid;
        } else {
            hi = mid;
        }
    }
    proof {
        assert(hi == lo + 1);
        lemma_floor_sqrt_unique(lo as int, floor_sqrt(v as int), v as int);
    }
    lo
}

/// The product of `a` and `b` as two digits to the base `2^64`, the upper
/// digit as large as it has to be.
pub fn wide_product(a: u128, b: u128) -> (r: (u128, u128))
    requires
        a < 0x1_0000_0000_0000_0000_0000_0000,
        b < 0x1_0000_0000_0000_0000_0000_0000,
    ensures
        r.0 * 0x1_0000_0000_0000_0000 + r.1 == a * b,
        r.1 < 0x1_0000_0000_0000_0000,
{
    let a1: u128 = a / 0x1_0000_0000_0000_0000;
    let a0: u128 = a % 0x1_0000_0000_0000_0000;
    let b1: u128 = b / 0x1_0000_0000_0000_0000;
    let b0: u128 = b % 0x1_0000_0000_0000_0000;
    proof {
        assert(a1 < 0x1_0000_0000 && b1 < 0x1_0000_0000);
        assert(a0 * b0 <= 0xffff_ffff_ffff_ffff * 0xffff_ffff_ffff_ffff) by (nonlinear_arith)
            requires
                0 <= a0 <= 0xffff_ffff_ffff_ffff,
                0 <= b0 <= 0xffff_ffff_ffff_ffff,
        ;
        assert(a1 * b0 <= 0xffff_ffff * 0xffff_ffff_ffff_ffff) by (nonlinear_arith)
            requires
                0 <= a1 <= 0xffff_ffff,
                0 <= b0 <= 0xffff_ffff_ffff_ffff,
        ;
        assert(a0 * b1 <= 0xffff_ffff_ffff_ffff * 0xffff_ffff) by (nonlinear_arith)
            requires
                0 <= b1 <= 0xffff_ffff,
                0 <= a0 <= 0xffff_ffff_ffff_ffff,
        ;
        assert(a1 * b1 <= 0xffff_ffff * 0xffff_ffff) by (nonlinear_arith)
            requires
                0 <= a1 <= 0xffff_ffff,
                0 <= b1 <= 0xffff_ffff,
        ;
        assert(a * b == (a1 * b1) * 0x1_0000_0000_0000_0000_0000_0000_0000_0000 + (a1 * b0 + a0
            * b1) * 0x1_0000_0000_0000_0000 + a0 * b0) by (nonlinear_arith)
            requires
                a == a1 * 0x1_0000_0000_0000_0000 + a0,
                b == b1 * 0x1_0000_0000_0000_0000 + b0,
        ;
    }
    let low: u128 = a0 * b0;
    let middle: u128 = a1 * b0 + a0 * b1;
    let high: u128 = a1 * b1;
    let upper: u128 = high * 0x1_0000_0000_0000_0000 + middle + low / 0x1_0000_0000_0000_0000;
    (upper, low % 0x1_0000_0000_0000_0000)
}

/// Whether `a * b < c * d`, for factors below `2^96`.
pub fn product_less(a: u128, b: u128, c: u128, d: u128) -> (less: bool)
    requires
        a < 0x1_0000_0000_0000_0000_0000_0000,
        b < 0x1_0000_0000_0000_0000_0000_0000,
        c < 0x1_0000_0000_0000_0000_0000_0000,
        d < 0x1_0000_0000_0000_0000_0000_0000,
    ensures
        less == (a * b < c * d),
{
    let (left_high, left_low) = wide_product(a, b);
    let (right_high, right_low) = wide_product(c, d);
    left_high < right_high || (left_high == right_high && left_low < right_low)
}

} // verus!
