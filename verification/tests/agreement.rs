use imageproc::drawing::BresenhamLineIter;
use primitive_image::canvas::Color;
use primitive_image::cubic_bezier::CubicBezier;
use primitive_image::ellipse::Ellipse;
use primitive_image::line::append_line;
use primitive_image::point::PrimitivePoint;
use primitive_image::quadratic_bezier::QuadraticBezier;
use primitive_image::utilities::get_rng;
use primitive_image::utilities::rotate_offset;
use rand::rngs::StdRng;
use rand::Rng;

fn draw_point(rng: &mut StdRng, reach: i32) -> PrimitivePoint {
    PrimitivePoint::new(rng.gen_range(-reach, reach), rng.gen_range(-reach, reach))
}

fn angle_in_degrees(vertex: PrimitivePoint, p2: PrimitivePoint, p3: PrimitivePoint) -> f64 {
    let dx1 = (p2.x - vertex.x) as f64;
    let dy1 = (p2.y - vertex.y) as f64;
    let dx2 = (p3.x - vertex.x) as f64;
    let dy2 = (p3.y - vertex.y) as f64;
    let cross = dx1 * dy2 - dy1 * dx2;
    let dot = dx1 * dx2 + dy1 * dy2;
    cross.abs().atan2(dot).to_degrees()
}

#[test]
fn test_angle_test_agrees_with_the_angle_in_degrees() {
    let mut rng = get_rng(15);
    let mut wide = 0;
    let mut narrow = 0;
    for _ in 0..20000 {
        let vertex = draw_point(&mut rng, 300);
        let p2 = draw_point(&mut rng, 300);
        let p3 = draw_point(&mut rng, 300);
        if p2 == vertex || p3 == vertex {
            continue;
        }
        let angle = angle_in_degrees(vertex, p2, p3);
        if (angle - 15.0).abs() < 1e-9 {
            continue;
        }
        assert_eq!(
            vertex.angle_exceeds_minimum(p2, p3),
            angle > 15.0,
            "at {:?} between {:?} and {:?}: {} degrees",
            vertex,
            p2,
            p3,
            angle
        );
        if angle > 15.0 {
            wide += 1;
        } else {
            narrow += 1;
        }
    }
    assert!(wide > 1000 && narrow > 1000);
}

#[test]
fn test_line_walk_agrees_with_bresenham() {
    let mut rng = get_rng(16);
    for _ in 0..5000 {
        let a = draw_point(&mut rng, 60);
        let b = draw_point(&mut rng, 60);
        let mut pixels = Vec::new();
        append_line(&mut pixels, a, b);
        let expected: Vec<PrimitivePoint> =
            BresenhamLineIter::new((a.x as f32, a.y as f32), (b.x as f32, b.y as f32))
                .map(|p| PrimitivePoint::new(p.0, p.1))
                .collect();
        assert_eq!(pixels, expected, "from {:?} to {:?}", a, b);
    }
}

#[test]
fn test_rotation_agrees_with_the_rotation_matrix() {
    let mut rng = get_rng(17);
    let origin = PrimitivePoint::new(0, 0);
    for _ in 0..20000 {
        let p = draw_point(&mut rng, 2000);
        let angle: u32 = rng.gen_range(0, 360);
        let radians = (angle as f64).to_radians();
        let x = p.x as f64 * radians.cos() - p.y as f64 * radians.sin();
        let y = p.x as f64 * radians.sin() + p.y as f64 * radians.cos();
        let turned = rotate_offset(p.x as i64, p.y as i64, origin, angle);
        assert!((turned.x as f64 - x).abs() < 1.0 + 1e-4, "{:?} by {}", p, angle);
        assert!((turned.y as f64 - y).abs() < 1.0 + 1e-4, "{:?} by {}", p, angle);
        if (x - x.round()).abs() > 1e-4 {
            assert_eq!(turned.x, x as i32, "{:?} by {}", p, angle);
        }
        if (y - y.round()).abs() > 1e-4 {
            assert_eq!(turned.y, y as i32, "{:?} by {}", p, angle);
        }
    }
}

#[test]
fn test_curve_samples_agree_with_the_curve() {
    let mut rng = get_rng(18);
    for _ in 0..2000 {
        let start = draw_point(&mut rng, 500);
        let c1 = draw_point(&mut rng, 500);
        let c2 = draw_point(&mut rng, 500);
        let end = draw_point(&mut rng, 500);
        let n: u64 = rng.gen_range(1, 200);
        let i: u64 = rng.gen_range(0, n + 1);
        let t = i as f64 / n as f64;
        let mt = 1.0 - t;
        let quadratic = QuadraticBezier::new(start, end, c1);
        let qx = start.x as f64 * mt * mt + 2.0 * c1.x as f64 * mt * t + end.x as f64 * t * t;
        let qy = start.y as f64 * mt * mt + 2.0 * c1.y as f64 * mt * t + end.y as f64 * t * t;
        let q = quadratic.sample(i, n);
        assert!((q.x as f64 - qx).abs() <= 0.5 + 1e-6 && (q.y as f64 - qy).abs() <= 0.5 + 1e-6);
        let cubic = CubicBezier::new(start, end, c1, c2);
        let cx = start.x as f64 * mt * mt * mt
            + 3.0 * c1.x as f64 * mt * mt * t
            + 3.0 * c2.x as f64 * mt * t * t
            + end.x as f64 * t * t * t;
        let cy = start.y as f64 * mt * mt * mt
            + 3.0 * c1.y as f64 * mt * mt * t
            + 3.0 * c2.y as f64 * mt * t * t
            + end.y as f64 * t * t * t;
        let c = cubic.sample(i, n);
        assert!((c.x as f64 - cx).abs() <= 0.5 + 1e-6 && (c.y as f64 - cy).abs() <= 0.5 + 1e-6);
    }
}

#[test]
fn test_ellipse_test_agrees_with_the_ellipse_equation() {
    let mut rng = get_rng(19);
    for _ in 0..20000 {
        let a: i32 = rng.gen_range(1, 40);
        let b: i32 = rng.gen_range(1, 40);
        let p = draw_point(&mut rng, 45);
        let ellipse = Ellipse {
            color: Color::new(0, 0, 0, 128),
            center: PrimitivePoint::new(0, 0),
            a,
            b,
            angle: 0,
        };
        let value = (p.x * p.x) as f64 / (a * a) as f64 + (p.y * p.y) as f64 / (b * b) as f64;
        if (value - 1.0).abs() < 1e-9 {
            continue;
        }
        assert_eq!(ellipse.un_rotated_contains_pixel(p.x, p.y), value <= 1.0);
    }
}

#[test]
fn test_painting_agrees_with_the_blend_formula() {
    let mut rng = get_rng(20);
    for _ in 0..20000 {
        let under = Color::new(rng.gen(), rng.gen(), rng.gen(), rng.gen());
        let paint = Color::new(rng.gen(), rng.gen(), rng.gen(), rng.gen());
        let out = under.painted_with(paint);
        let alpha = paint.a as f64 / 255.0;
        for (got, over, below) in
            [(out.r, paint.r, under.r), (out.g, paint.g, under.g), (out.b, paint.b, under.b)]
        {
            let exact = over as f64 * alpha + below as f64 * (1.0 - alpha);
            assert!((got as f64 - exact).abs() < 1.0 + 1e-3, "{:?} over {:?}", paint, under);
        }
        assert_eq!(out.a, under.a);
    }
}
