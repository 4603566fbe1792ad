use primitive_image::canvas::Color;
use primitive_image::cubic_bezier::CubicBezier;
use primitive_image::curve::cross_root;
use primitive_image::curve::distance_squared;
use primitive_image::curve::rounding_div;
use primitive_image::curve::segments;
use primitive_image::line::append_line;
use primitive_image::point::PrimitivePoint;
use primitive_image::quadratic_bezier::QuadraticBezier;
use primitive_image::shape::ShapeError;
use primitive_image::utilities::get_rng;
use rand::rngs::StdRng;
use rand::Rng;
use rand_distr::Normal;

fn gaussian(rng: &mut StdRng) -> i32 {
    let normal = Normal::new(0.0, 16.0).unwrap();
    rng.sample(normal) as i32
}

fn still(_rng: &mut StdRng) -> i32 {
    0
}

fn points(pairs: &[(i32, i32)]) -> Vec<PrimitivePoint> {
    pairs.iter().map(|p| PrimitivePoint::new(p.0, p.1)).collect()
}

fn line(a: (i32, i32), b: (i32, i32)) -> Vec<PrimitivePoint> {
    let mut pixels = Vec::new();
    append_line(&mut pixels, PrimitivePoint::new(a.0, a.1), PrimitivePoint::new(b.0, b.1));
    pixels
}

#[test]
fn test_line_walks() {
    assert_eq!(line((0, 0), (4, 2)), points(&[(0, 0), (1, 0), (2, 1), (3, 1), (4, 2)]));
    assert_eq!(line((0, 0), (3, 4)), points(&[(0, 0), (1, 1), (1, 2), (2, 3), (3, 4)]));
    assert_eq!(line((2, 2), (2, 2)), points(&[(2, 2)]));
    assert_eq!(line((0, 0), (3, 0)), points(&[(0, 0), (1, 0), (2, 0), (3, 0)]));
    assert_eq!(line((0, 0), (2, 2)), points(&[(0, 0), (1, 1), (2, 2)]));
}

#[test]
fn test_line_starts_at_the_end_of_smaller_coordinate() {
    assert_eq!(line((5, 1), (0, 0)), points(&[(0, 0), (1, 0), (2, 0), (3, 1), (4, 1), (5, 1)]));
    assert_eq!(line((8, 4), (10, 0)), points(&[(10, 0), (10, 1), (9, 2), (9, 3), (8, 4)]));
    assert_eq!(line((0, 3), (0, 0)), points(&[(0, 0), (0, 1), (0, 2), (0, 3)]));
}

#[test]
fn test_line_appends() {
    let mut pixels = points(&[(7, 7)]);
    append_line(&mut pixels, PrimitivePoint::new(0, 0), PrimitivePoint::new(1, 0));
    assert_eq!(pixels, points(&[(7, 7), (0, 0), (1, 0)]));
}

#[test]
fn test_line_at_the_ends_of_the_range() {
    let pixels = line((i32::MAX - 2, i32::MIN), (i32::MAX, i32::MIN + 1));
    assert_eq!(
        pixels,
        points(&[(i32::MAX - 2, i32::MIN), (i32::MAX - 1, i32::MIN), (i32::MAX, i32::MIN + 1)])
    );
}

#[test]
fn test_lengths_and_segments() {
    assert_eq!(distance_squared(PrimitivePoint::new(0, 0), PrimitivePoint::new(3, 4)), 25);
    assert_eq!(distance_squared(PrimitivePoint::new(1, 1), PrimitivePoint::new(1, 1)), 0);
    let most: u128 = 2 * ((1u128 << 32) - 1) * ((1u128 << 32) - 1);
    assert_eq!(
        distance_squared(
            PrimitivePoint::new(i32::MIN, i32::MIN),
            PrimitivePoint::new(i32::MAX, i32::MAX)
        ),
        most
    );
    // 2 sqrt(25 * 16) = 40, 2 sqrt(58 * 58) = 116, 2 sqrt(2 * 3) = 4.89...
    assert_eq!(cross_root(25, 16), 40);
    assert_eq!(cross_root(58, 58), 116);
    assert_eq!(cross_root(2, 3), 4);
    assert_eq!(cross_root(0, 1000), 0);
    assert_eq!(cross_root(most, most), 2 * most);
    assert_eq!(cross_root(most, 1), 12148001997);
    // sqrt(800) / 8 = 3.5..., sqrt(22^2 + 800) / 8 = 4.4..., sqrt(1000^2 + 800) / 8 = 125.0...
    assert_eq!(segments(0), 3);
    assert_eq!(segments(22 * 22), 4);
    assert_eq!(segments(1000 * 1000), 125);
    assert_eq!(segments(223), 3);
    assert_eq!(segments(224), 4);
}

#[test]
fn test_pieces_follow_the_unrounded_length() {
    // Two chords of sqrt(58) = 7.61...: their sum is 15.23..., not 14, and
    // sqrt(15.23...^2 + 800) / 8 = 4.01...
    let curve = QuadraticBezier::new(
        PrimitivePoint::new(0, 0),
        PrimitivePoint::new(14, 0),
        PrimitivePoint::new(7, 3),
    );
    assert_eq!(curve.sample(4, 4), PrimitivePoint::new(14, 0));
    let pixels = curve.get_pixels();
    // The samples are (0, 0), (4, 1), (7, 2), (11, 1), (14, 0): four walks of 5, 4, 5 and 4 pixels.
    assert_eq!(pixels.len(), 18);
    assert_eq!(curve.sample(1, 4), PrimitivePoint::new(4, 1));
    assert_eq!(curve.sample(2, 4), PrimitivePoint::new(7, 2));
    assert_eq!(curve.sample(3, 4), PrimitivePoint::new(11, 1));
}

#[test]
fn test_rounding_div() {
    assert_eq!(rounding_div(40, 16), 3);
    assert_eq!(rounding_div(39, 16), 2);
    assert_eq!(rounding_div(-40, 16), -3);
    assert_eq!(rounding_div(-39, 16), -2);
    assert_eq!(rounding_div(0, 16), 0);
    assert_eq!(rounding_div(7, 7), 1);
    assert_eq!(rounding_div(-7, 7), -1);
}

#[test]
fn test_quadratic_get_pixels() {
    let curve = QuadraticBezier {
        color: Color::new(0, 0, 0, 128),
        start: PrimitivePoint::new(0, 0),
        control: PrimitivePoint::new(5, 10),
        end: PrimitivePoint::new(10, 0),
    };
    // Four pieces between the samples (0, 0), (3, 4), (5, 5), (8, 4), (10, 0).
    assert_eq!(curve.sample(0, 4), PrimitivePoint::new(0, 0));
    assert_eq!(curve.sample(1, 4), PrimitivePoint::new(3, 4));
    assert_eq!(curve.sample(2, 4), PrimitivePoint::new(5, 5));
    assert_eq!(curve.sample(3, 4), PrimitivePoint::new(8, 4));
    assert_eq!(curve.sample(4, 4), PrimitivePoint::new(10, 0));
    assert_eq!(
        curve.get_pixels(),
        points(&[
            (0, 0), (1, 1), (1, 2), (2, 3), (3, 4),
            (3, 4), (4, 4), (5, 5),
            (5, 5), (6, 5), (7, 4), (8, 4),
            (10, 0), (10, 1), (9, 2), (9, 3), (8, 4),
        ])
    );
}

#[test]
fn test_quadratic_is_valid() {
    let curve = QuadraticBezier::new(
        PrimitivePoint::new(0, 0),
        PrimitivePoint::new(10, 0),
        PrimitivePoint::new(5, 5),
    );
    assert_eq!(curve.start, PrimitivePoint::new(0, 0));
    assert_eq!(curve.end, PrimitivePoint::new(10, 0));
    assert_eq!(curve.control, PrimitivePoint::new(5, 5));
    assert_eq!(curve.color, Color::new(0, 0, 0, 128));
    assert!(curve.is_valid());
    // The control point as far from the start as the end is: not strictly nearer.
    assert!(!QuadraticBezier { control: PrimitivePoint::new(0, 10), ..curve }.is_valid());
    assert!(!QuadraticBezier { control: PrimitivePoint::new(10, 10), ..curve }.is_valid());
    assert!(!QuadraticBezier { control: PrimitivePoint::new(20, 0), ..curve }.is_valid());
    assert!(!QuadraticBezier { end: PrimitivePoint::new(0, 0), ..curve }.is_valid());
    let wide = QuadraticBezier {
        color: curve.color,
        start: PrimitivePoint::new(i32::MIN, i32::MIN),
        control: PrimitivePoint::new(0, 0),
        end: PrimitivePoint::new(i32::MAX, i32::MAX),
    };
    assert!(wide.is_valid());
}

#[test]
fn test_quadratic_bounding_box() {
    let curve = QuadraticBezier::new(
        PrimitivePoint::new(4, -1),
        PrimitivePoint::new(10, 3),
        PrimitivePoint::new(-5, 7),
    );
    assert_eq!(curve.bounding_box(), [PrimitivePoint::new(-5, -1), PrimitivePoint::new(10, 7)]);
}

#[test]
fn test_quadratic_mutate() {
    let mut rng = get_rng(21);
    let mut curve = QuadraticBezier::new(
        PrimitivePoint::new(0, 0),
        PrimitivePoint::new(0, 0),
        PrimitivePoint::new(0, 0),
    );
    for _ in 0..200 {
        assert_eq!(curve.mutate(60, 40, &mut rng, &gaussian), Ok(()));
        assert!(curve.is_valid());
        assert_eq!(curve.color, Color::new(0, 0, 0, 128));
    }
    let mut stuck = QuadraticBezier::new(
        PrimitivePoint::new(1, 1),
        PrimitivePoint::new(1, 1),
        PrimitivePoint::new(1, 1),
    );
    assert_eq!(stuck.mutate(60, 40, &mut rng, &still), Err(ShapeError::GenerationExhausted));
    assert_eq!(stuck.start, PrimitivePoint::new(1, 1));
    let fresh = QuadraticBezier::random(60, 40, 6, &mut rng, &gaussian).unwrap();
    assert!(fresh.is_valid());
}

#[test]
fn test_cubic_get_pixels() {
    let curve = CubicBezier {
        color: Color::new(0, 0, 0, 128),
        start: PrimitivePoint::new(0, 0),
        control1: PrimitivePoint::new(0, 10),
        control2: PrimitivePoint::new(10, 10),
        end: PrimitivePoint::new(10, 0),
    };
    // Five pieces between the samples (0, 0), (1, 5), (4, 7), (6, 7), (9, 5), (10, 0).
    assert_eq!(curve.sample(1, 5), PrimitivePoint::new(1, 5));
    assert_eq!(curve.sample(2, 5), PrimitivePoint::new(4, 7));
    assert_eq!(
        curve.get_pixels(),
        points(&[
            (0, 0), (0, 1), (0, 2), (1, 3), (1, 4), (1, 5),
            (1, 5), (2, 6), (3, 6), (4, 7),
            (4, 7), (5, 7), (6, 7),
            (6, 7), (7, 6), (8, 6), (9, 5),
            (10, 0), (10, 1), (10, 2), (9, 3), (9, 4), (9, 5),
        ])
    );
}

#[test]
fn test_curves_of_one_point_and_of_the_whole_range() {
    let p = PrimitivePoint::new(3, 3);
    let dot = CubicBezier::new(p, p, p, p);
    assert!(dot.is_valid());
    assert_eq!(dot.get_pixels(), vec![p, p, p]);
    let far = QuadraticBezier::new(
        PrimitivePoint::new(i32::MIN, i32::MIN),
        PrimitivePoint::new(i32::MAX, i32::MAX),
        PrimitivePoint::new(i32::MIN, i32::MAX),
    );
    let n: u64 = 1 << 30;
    assert_eq!(far.sample(0, n), far.start);
    assert_eq!(far.sample(n, n), far.end);
    let long = CubicBezier::new(far.start, far.end, far.control, far.control);
    assert_eq!(long.sample(0, n), long.start);
    assert_eq!(long.sample(n, n), long.end);
    assert_eq!(long.sample(n / 2, n), PrimitivePoint::new(-1610612736, 1610612735));
}

#[test]
fn test_cubic_mutate_moves_one_point() {
    let mut rng = get_rng(22);
    let mut curve = CubicBezier::new(
        PrimitivePoint::new(10, 10),
        PrimitivePoint::new(20, 20),
        PrimitivePoint::new(12, 18),
        PrimitivePoint::new(18, 12),
    );
    for _ in 0..200 {
        let before = curve;
        curve.mutate(60, 40, &mut rng, &gaussian);
        let changed = [
            curve.start != before.start,
            curve.end != before.end,
            curve.control1 != before.control1,
            curve.control2 != before.control2,
        ];
        assert!(changed.iter().filter(|c| **c).count() <= 1);
        assert_eq!(curve.color, before.color);
    }
    let fresh = CubicBezier::random(60, 40, 6, &mut rng, &gaussian);
    assert_eq!(fresh.color, Color::new(0, 0, 0, 128));
}

#[test]
fn test_curves_stay_in_the_box_of_their_points() {
    let mut rng = get_rng(23);
    for _ in 0..200 {
        let quadratic = QuadraticBezier::random(80, 60, 6, &mut rng, &gaussian).unwrap();
        let corners = quadratic.bounding_box();
        for p in quadratic.get_pixels() {
            assert!(corners[0].x <= p.x && p.x <= corners[1].x);
            assert!(corners[0].y <= p.y && p.y <= corners[1].y);
        }
        let cubic = CubicBezier::random(80, 60, 6, &mut rng, &gaussian);
        let xs = [cubic.start.x, cubic.control1.x, cubic.control2.x, cubic.end.x];
        let ys = [cubic.start.y, cubic.control1.y, cubic.control2.y, cubic.end.y];
        let pixels = cubic.get_pixels();
        assert!(pixels.contains(&cubic.start) && pixels.contains(&cubic.end));
        for p in pixels {
            assert!(*xs.iter().min().unwrap() <= p.x && p.x <= *xs.iter().max().unwrap());
            assert!(*ys.iter().min().unwrap() <= p.y && p.y <= *ys.iter().max().unwrap());
        }
    }
}
