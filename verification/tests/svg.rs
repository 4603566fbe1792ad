use primitive_image::canvas::Canvas;
use primitive_image::canvas::Color;
use primitive_image::cubic_bezier::CubicBezier;
use primitive_image::ellipse::Ellipse;
use primitive_image::point::PrimitivePoint;
use primitive_image::primitive_image::PrimitiveImage;
use primitive_image::quadratic_bezier::QuadraticBezier;
use primitive_image::rectangle::Rectangle;
use primitive_image::scale::Ratio;
use primitive_image::shape::Shape;
use primitive_image::svg::decimal;
use primitive_image::svg::digits;
use primitive_image::svg::halves;
use primitive_image::svg::opacity;
use primitive_image::triangle::Triangle;

fn ratio(numerator: u32, denominator: u32) -> Ratio {
    Ratio { numerator, denominator }
}

#[test]
fn triangle_test_as_svg() {
    let p1 = PrimitivePoint::new(0, 0);
    let p2 = PrimitivePoint::new(0, 0);
    let p3 = PrimitivePoint::new(0, 0);
    let tri = Triangle { path: [p1, p2, p3], color: Color::new(0, 0, 0, 0) };
    let expected = "<polygon fill=\"#000000\" fill-opacity=\"0.00000\" points=\"0,0 0,0 0,0\" />";
    assert_eq!(tri.as_svg(&ratio(1, 1)).as_str(), expected);

    let p1 = PrimitivePoint::new(20, 0);
    let p2 = PrimitivePoint::new(0, 40);
    let p3 = PrimitivePoint::new(30, 10);
    let tri = Triangle { path: [p1, p2, p3], color: Color::new(240, 64, 15, 128) };
    let scale = ratio(2, 1);
    let expected =
        "<polygon fill=\"#F0400F\" fill-opacity=\"0.50196\" points=\"40,0 0,80 60,20\" />";
    assert_eq!(tri.as_svg(&scale).as_str(), expected);
}

#[test]
fn rectangle_test_as_svg() {
    let center = PrimitivePoint::new(0, 0);
    let rect = Rectangle { center, width: 5, height: 5, angle: 0, color: Color::new(0, 0, 0, 128) };
    let expected = "<rect fill=\"#000000\" fill-opacity=\"0.50196\" x=\"-2\" y=\"-2\" width=\"5\" height=\"5\" transform=\"rotate(0 0.5 0.5)\"/>";
    assert_eq!(rect.as_svg(&ratio(1, 1)).as_str(), expected);

    let center = PrimitivePoint::new(1, 1);
    let rect =
        Rectangle { center, width: 2, height: 2, angle: 45, color: Color::new(128, 15, 240, 128) };
    let expected = "<rect fill=\"#800FF0\" fill-opacity=\"0.50196\" x=\"0\" y=\"0\" width=\"2\" height=\"2\" transform=\"rotate(45 1 1)\"/>";
    assert_eq!(rect.as_svg(&ratio(1, 1)).as_str(), expected);
}

#[test]
fn test_rectangle_as_svg_scaled_and_left_of_zero() {
    let rect = Rectangle {
        center: PrimitivePoint::new(-10, 7),
        width: 5,
        height: 4,
        angle: 300,
        color: Color::new(1, 2, 3, 255),
    };
    // Scaled by 3/2 the centre is (-15, 10) and the sides are 7 and 6.
    let expected = "<rect fill=\"#010203\" fill-opacity=\"1.00000\" x=\"-18\" y=\"7\" width=\"7\" height=\"6\" transform=\"rotate(300 -14.5 10)\"/>";
    assert_eq!(rect.as_svg(&ratio(3, 2)).as_str(), expected);
}

#[test]
fn test_ellipse_as_svg() {
    let ellipse = Ellipse {
        center: PrimitivePoint::new(12, -4),
        a: 3,
        b: 5,
        angle: 30,
        color: Color::new(255, 0, 128, 128),
    };
    let expected = "<ellipse fill=\"#FF0080\" fill-opacity=\"0.50196\" cx=\"24\" cy=\"-8\" rx=\"6\" ry=\"10\" transform=\"rotate(-30 24 -8)\"/>";
    assert_eq!(ellipse.as_svg(&ratio(2, 1)).as_str(), expected);
    let upright = Ellipse { angle: 0, ..ellipse };
    let expected = "<ellipse fill=\"#FF0080\" fill-opacity=\"0.50196\" cx=\"12\" cy=\"-4\" rx=\"3\" ry=\"5\" transform=\"rotate(0 12 -4)\"/>";
    assert_eq!(upright.as_svg(&ratio(1, 1)).as_str(), expected);
}

#[test]
fn test_curves_as_svg() {
    let color = Color::new(10, 11, 12, 128);
    let quadratic = QuadraticBezier {
        color,
        start: PrimitivePoint::new(1, 2),
        control: PrimitivePoint::new(-3, 4),
        end: PrimitivePoint::new(5, 6),
    };
    let expected = "<path stroke=\"#0A0B0C\" stroke-opacity=\"0.50196\" fill=\"none\" d=\"M3 6 Q-9 12, 15 18\" stroke-width=\"1.50000\" />";
    assert_eq!(quadratic.as_svg(&ratio(3, 1)).as_str(), expected);
    let cubic = CubicBezier {
        color,
        start: PrimitivePoint::new(1, 2),
        control1: PrimitivePoint::new(-3, 4),
        control2: PrimitivePoint::new(7, 8),
        end: PrimitivePoint::new(5, 6),
    };
    let expected = "<path stroke=\"#0A0B0C\" stroke-opacity=\"0.50196\" fill=\"none\" d=\"M1 2 C-3 4, 7 8, 5 6\" stroke-width=\"0.50000\" />";
    assert_eq!(cubic.as_svg(&ratio(1, 1)).as_str(), expected);
    // A third of a half is 0.16666..., and a wide stroke has all its digits.
    let expected = "<path stroke=\"#0A0B0C\" stroke-opacity=\"0.50196\" fill=\"none\" d=\"M0 0 C-1 1, 2 2, 1 2\" stroke-width=\"0.16666\" />";
    assert_eq!(Shape::CubicBezier(cubic).as_svg(&ratio(1, 3)).as_str(), expected);
    assert!(cubic.as_svg(&ratio(1000, 1)).ends_with("stroke-width=\"500.00000\" />"));
    assert!(cubic.as_svg(&ratio(2000, 100)).ends_with("stroke-width=\"10.00000\" />"));
    assert!(cubic.as_svg(&ratio(u32::MAX, 1)).ends_with("stroke-width=\"2147483647.50000\" />"));
}

#[test]
fn test_opacity_has_five_places() {
    for alpha in 0..=255u8 {
        assert_eq!(opacity(alpha), format!("{:.5}", alpha as f64 / 255.0), "alpha {}", alpha);
    }
    assert_eq!(opacity(0), "0.00000");
    assert_eq!(opacity(1), "0.00392");
    assert_eq!(opacity(128), "0.50196");
    assert_eq!(opacity(255), "1.00000");
}

#[test]
fn test_decimal_and_halves() {
    assert_eq!(digits(0), "0");
    assert_eq!(digits(7), "7");
    assert_eq!(digits(10), "10");
    assert_eq!(digits(u64::MAX), u64::MAX.to_string());
    assert_eq!(decimal(0), "0");
    assert_eq!(decimal(-1), "-1");
    assert_eq!(decimal(1234567890), "1234567890");
    assert_eq!(decimal(i64::MAX), i64::MAX.to_string());
    assert_eq!(decimal(i64::MIN + 1), (i64::MIN + 1).to_string());
    assert_eq!(halves(0), "0");
    assert_eq!(halves(1), "0.5");
    assert_eq!(halves(-1), "-0.5");
    assert_eq!(halves(2), "1");
    assert_eq!(halves(-2), "-1");
    assert_eq!(halves(-29), "-14.5");
    assert_eq!(halves(201), "100.5");
}

#[test]
fn test_document_as_svg() {
    let target = Canvas::from_pixel(4, 2, Color::new(200, 100, 50, 255));
    let mut image =
        PrimitiveImage::with_scale(target, Color::new(0, 0, 0, 255), Ratio::fitting(12, 6, 4));
    let empty = "<svg xmlns=\"http://www.w3.org/2000/svg\" version=\"1.1\" width=\"12\" height=\"6\"><rect x=\"0\" y=\"0\" width=\"12\" height=\"6\" fill=\"#000000\" /><g></g></svg>";
    assert_eq!(image.as_svg().as_str(), empty);
    let first = Shape::Triangle(Triangle {
        color: Color::new(200, 100, 50, 128),
        path: [PrimitivePoint::new(0, 0), PrimitivePoint::new(3, 0), PrimitivePoint::new(0, 1)],
    });
    let second = Shape::Triangle(Triangle {
        color: Color::new(200, 100, 50, 128),
        path: [PrimitivePoint::new(3, 1), PrimitivePoint::new(3, 0), PrimitivePoint::new(0, 1)],
    });
    assert!(image.accept_if_better(first));
    assert!(image.accept_if_better(second));
    let full = "<svg xmlns=\"http://www.w3.org/2000/svg\" version=\"1.1\" width=\"12\" height=\"6\"><rect x=\"0\" y=\"0\" width=\"12\" height=\"6\" fill=\"#000000\" /><g><polygon fill=\"#C86432\" fill-opacity=\"0.50196\" points=\"0,0 9,0 0,3\" /><polygon fill=\"#C86432\" fill-opacity=\"0.50196\" points=\"9,3 9,0 0,3\" /></g></svg>";
    assert_eq!(image.as_svg().as_str(), full);
}
