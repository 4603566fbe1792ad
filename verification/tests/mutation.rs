use primitive_image::canvas::Color;
use primitive_image::cubic_bezier::CubicBezier;
use primitive_image::cubic_bezier::CubicChange;
use primitive_image::ellipse::Ellipse;
use primitive_image::ellipse::EllipseChange;
use primitive_image::point::PrimitivePoint;
use primitive_image::quadratic_bezier::QuadraticBezier;
use primitive_image::quadratic_bezier::QuadraticChange;
use primitive_image::rectangle::Rectangle;
use primitive_image::rectangle::RectangleChange;
use primitive_image::shape::after_change;
use primitive_image::shape::Retry;
use primitive_image::shape::ShapeError;
use primitive_image::shape::MAXIMUM_MUTATION_ATTEMPTS;
use primitive_image::triangle::Triangle;
use primitive_image::triangle::TriangleChange;
use primitive_image::utilities::get_rng;
use rand::rngs::StdRng;
use rand::Rng;
use rand_distr::Normal;

fn gaussian(rng: &mut StdRng) -> i32 {
    let normal = Normal::new(0.0, 16.0).unwrap();
    rng.sample(normal) as i32
}

fn p(x: i32, y: i32) -> PrimitivePoint {
    PrimitivePoint::new(x, y)
}

fn grey() -> Color {
    Color::new(10, 20, 30, 128)
}

#[test]
fn test_after_change_ends_on_a_valid_shape() {
    assert_eq!(after_change(true, 0), Retry::Done);
    assert_eq!(after_change(true, 17), Retry::Done);
    assert_eq!(after_change(true, MAXIMUM_MUTATION_ATTEMPTS), Retry::Done);
}

#[test]
fn test_after_change_goes_on_while_attempts_are_left() {
    assert_eq!(after_change(false, 0), Retry::Again);
    assert_eq!(after_change(false, 1), Retry::Again);
    assert_eq!(after_change(false, 99_999), Retry::Again);
}

#[test]
fn test_after_change_gives_up_after_the_last_attempt() {
    assert_eq!(MAXIMUM_MUTATION_ATTEMPTS, 100_000);
    assert_eq!(after_change(false, 100_000), Retry::GiveUp);
    assert_eq!(after_change(false, 100_001), Retry::GiveUp);
    assert_eq!(after_change(false, u32::MAX), Retry::GiveUp);
}

#[test]
fn test_ellipse_changed_changes_one_parameter() {
    let ellipse = Ellipse { color: grey(), center: p(50, 40), a: 4, b: 6, angle: 30 };
    assert_eq!(
        ellipse.changed(EllipseChange::Center(7, -9), 100, 80),
        Ellipse { center: p(57, 31), ..ellipse }
    );
    assert_eq!(
        ellipse.changed(EllipseChange::Center(70, -90), 100, 80),
        Ellipse { center: p(105, -5), ..ellipse }
    );
    assert_eq!(ellipse.changed(EllipseChange::A(3), 100, 80), Ellipse { a: 7, ..ellipse });
    assert_eq!(ellipse.changed(EllipseChange::A(-30), 100, 80), Ellipse { a: 1, ..ellipse });
    assert_eq!(ellipse.changed(EllipseChange::A(300), 100, 80), Ellipse { a: 100, ..ellipse });
    assert_eq!(ellipse.changed(EllipseChange::B(-2), 100, 80), Ellipse { b: 4, ..ellipse });
    assert_eq!(ellipse.changed(EllipseChange::B(300), 60, 80), Ellipse { b: 80, ..ellipse });
    assert_eq!(ellipse.changed(EllipseChange::Angle(359), 100, 80), Ellipse { angle: 359, ..ellipse });
    assert_eq!(ellipse.changed(EllipseChange::Angle(0), 100, 80), Ellipse { angle: 0, ..ellipse });
}

#[test]
fn test_rectangle_changed_changes_one_parameter() {
    let rect = Rectangle { color: grey(), center: p(20, 10), width: 12, height: 8, angle: 45 };
    assert_eq!(
        rect.changed(RectangleChange::Center(-30, 3), 50, 40),
        Rectangle { center: p(-5, 13), ..rect }
    );
    assert_eq!(rect.changed(RectangleChange::Width(5), 50, 40), Rectangle { width: 17, ..rect });
    assert_eq!(rect.changed(RectangleChange::Width(-50), 50, 40), Rectangle { width: 5, ..rect });
    assert_eq!(rect.changed(RectangleChange::Height(50), 50, 40), Rectangle { height: 50, ..rect });
    assert_eq!(rect.changed(RectangleChange::Height(-1), 50, 40), Rectangle { height: 7, ..rect });
    assert_eq!(rect.changed(RectangleChange::Angle(270), 50, 40), Rectangle { angle: 270, ..rect });
}

#[test]
fn test_quadratic_changed_moves_one_point() {
    let curve = QuadraticBezier { color: grey(), start: p(1, 2), control: p(30, 20), end: p(59, 3) };
    assert_eq!(
        curve.changed(QuadraticChange::Start(4, 5), 60, 40),
        QuadraticBezier { start: p(5, 7), ..curve }
    );
    assert_eq!(
        curve.changed(QuadraticChange::End(10, 50), 60, 40),
        QuadraticBezier { end: p(65, 45), ..curve }
    );
    assert_eq!(
        curve.changed(QuadraticChange::Control(-40, -3), 60, 40),
        QuadraticBezier { control: p(-5, 17), ..curve }
    );
}

#[test]
fn test_cubic_changed_moves_one_point() {
    let curve = CubicBezier {
        color: grey(),
        start: p(1, 2),
        control1: p(10, 20),
        control2: p(40, 30),
        end: p(59, 3),
    };
    assert_eq!(
        curve.changed(CubicChange::Start(-1, -2), 60, 40),
        CubicBezier { start: p(0, 0), ..curve }
    );
    assert_eq!(
        curve.changed(CubicChange::End(1, 1), 60, 40),
        CubicBezier { end: p(60, 4), ..curve }
    );
    assert_eq!(
        curve.changed(CubicChange::Control1(100, 0), 60, 40),
        CubicBezier { control1: p(65, 20), ..curve }
    );
    assert_eq!(
        curve.changed(CubicChange::Control2(0, -100), 60, 40),
        CubicBezier { control2: p(40, -5), ..curve }
    );
}

#[test]
fn test_triangle_changed_moves_one_vertex() {
    let tri = Triangle { color: grey(), path: [p(0, 0), p(30, 0), p(0, 25)] };
    assert_eq!(
        tri.changed(TriangleChange::First(3, 4), 40, 30),
        Triangle { color: grey(), path: [p(3, 4), p(30, 0), p(0, 25)] }
    );
    assert_eq!(
        tri.changed(TriangleChange::Second(30, -30), 40, 30),
        Triangle { color: grey(), path: [p(0, 0), p(45, -5), p(0, 25)] }
    );
    assert_eq!(
        tri.changed(TriangleChange::Third(-1, 40), 40, 30),
        Triangle { color: grey(), path: [p(0, 0), p(30, 0), p(-1, 35)] }
    );
}

#[test]
fn test_changes_at_the_ends_of_the_range() {
    let ellipse = Ellipse { color: grey(), center: p(i32::MAX, i32::MIN), a: i32::MAX, b: 1, angle: 0 };
    assert_eq!(
        ellipse.changed(EllipseChange::Center(i32::MAX, i32::MIN), u32::MAX, u32::MAX),
        Ellipse { center: p(i32::MAX, -5), ..ellipse }
    );
    assert_eq!(
        ellipse.changed(EllipseChange::A(i32::MAX), u32::MAX, 1),
        Ellipse { a: i32::MAX, ..ellipse }
    );
    assert_eq!(ellipse.changed(EllipseChange::B(i32::MIN), 7, 9), Ellipse { b: 1, ..ellipse });
    assert_eq!(
        ellipse.changed(EllipseChange::Angle(u32::MAX), 7, 9),
        Ellipse { angle: u32::MAX, ..ellipse }
    );
}

#[test]
fn test_drawn_angles_stay_within_the_turn() {
    let mut rng = get_rng(11);
    let mut angles = 0;
    for _ in 0..2000 {
        match Ellipse::draw_change(&mut rng, &gaussian) {
            EllipseChange::Angle(angle) => {
                assert!(angle < 360);
                angles += 1;
            }
            _ => {}
        }
        match Rectangle::draw_change(&mut rng, &gaussian) {
            RectangleChange::Angle(angle) => {
                assert!(angle < 360);
                angles += 1;
            }
            _ => {}
        }
    }
    assert!(angles > 0);
}

#[test]
fn test_every_kind_of_change_is_drawn() {
    let mut rng = get_rng(5);
    let mut seen = [false; 4];
    for _ in 0..400 {
        match Ellipse::draw_change(&mut rng, &gaussian) {
            EllipseChange::Center(_, _) => seen[0] = true,
            EllipseChange::A(_) => seen[1] = true,
            EllipseChange::B(_) => seen[2] = true,
            EllipseChange::Angle(_) => seen[3] = true,
        }
    }
    assert_eq!(seen, [true; 4]);
    let mut seen = [false; 3];
    for _ in 0..400 {
        match Triangle::draw_change(&mut rng, &gaussian) {
            TriangleChange::First(_, _) => seen[0] = true,
            TriangleChange::Second(_, _) => seen[1] = true,
            TriangleChange::Third(_, _) => seen[2] = true,
        }
    }
    assert_eq!(seen, [true; 3]);
}

#[test]
fn test_rectangle_mutation_is_the_drawn_change() {
    for seed in 1..40 {
        let rect = Rectangle { color: grey(), center: p(20, 10), width: 12, height: 8, angle: 45 };
        let mut drawing = get_rng(seed);
        let change = Rectangle::draw_change(&mut drawing, &gaussian);
        let mut mutated = rect;
        let mut rng = get_rng(seed);
        mutated.mutate(50, 40, &mut rng, &gaussian);
        assert_eq!(mutated, rect.changed(change, 50, 40));
    }
}

#[test]
fn test_cubic_mutation_is_the_drawn_change() {
    for seed in 1..40 {
        let curve = CubicBezier {
            color: grey(),
            start: p(1, 2),
            control1: p(10, 20),
            control2: p(40, 30),
            end: p(59, 3),
        };
        let mut drawing = get_rng(seed);
        let change = CubicBezier::draw_change(&mut drawing, &gaussian);
        let mut mutated = curve;
        let mut rng = get_rng(seed);
        mutated.mutate(60, 40, &mut rng, &gaussian);
        assert_eq!(mutated, curve.changed(change, 60, 40));
    }
}

#[test]
fn test_ellipse_mutation_follows_the_decisions() {
    for seed in 1..40 {
        let ellipse = Ellipse { color: grey(), center: p(50, 40), a: 4, b: 6, angle: 30 };
        let mut drawing = get_rng(seed);
        let mut candidate = ellipse;
        let mut failures = 0;
        let expected = loop {
            let change = Ellipse::draw_change(&mut drawing, &gaussian);
            let next = candidate.changed(change, 100, 80);
            match after_change(next.is_valid(100, 80), failures) {
                Retry::Done => break Ok(next),
                Retry::GiveUp => break Err(ShapeError::GenerationExhausted),
                Retry::Again => {
                    candidate = next;
                    failures += 1;
                }
            }
        };
        let mut mutated = ellipse;
        let mut rng = get_rng(seed);
        let res = mutated.mutate(100, 80, &mut rng, &gaussian);
        assert_eq!(res.map(|_| mutated), expected);
    }
}

#[test]
fn test_triangle_mutation_follows_the_decisions() {
    for seed in 1..40 {
        let tri = Triangle { color: grey(), path: [p(0, 0), p(30, 0), p(0, 25)] };
        let mut drawing = get_rng(seed);
        let mut candidate = tri;
        let mut failures = 0;
        let expected = loop {
            let change = Triangle::draw_change(&mut drawing, &gaussian);
            let next = candidate.changed(change, 40, 30);
            match after_change(next.is_valid(), failures) {
                Retry::Done => break Ok(next),
                Retry::GiveUp => break Err(ShapeError::GenerationExhausted),
                Retry::Again => {
                    candidate = next;
                    failures += 1;
                }
            }
        };
        let mut mutated = tri;
        let mut rng = get_rng(seed);
        let res = mutated.mutate(40, 30, &mut rng, &gaussian);
        assert_eq!(res.map(|_| mutated), expected);
    }
}

#[test]
fn test_quadratic_mutation_follows_the_decisions() {
    for seed in 1..40 {
        let curve = QuadraticBezier { color: grey(), start: p(1, 2), control: p(30, 20), end: p(59, 3) };
        let mut drawing = get_rng(seed);
        let mut candidate = curve;
        let mut failures = 0;
        let expected = loop {
            let change = QuadraticBezier::draw_change(&mut drawing, &gaussian);
            let next = candidate.changed(change, 60, 40);
            match after_change(next.is_valid(), failures) {
                Retry::Done => break Ok(next),
                Retry::GiveUp => break Err(ShapeError::GenerationExhausted),
                Retry::Again => {
                    candidate = next;
                    failures += 1;
                }
            }
        };
        let mut mutated = curve;
        let mut rng = get_rng(seed);
        let res = mutated.mutate(60, 40, &mut rng, &gaussian);
        assert_eq!(res.map(|_| mutated), expected);
    }
}
