use primitive_image::canvas::Canvas;
use primitive_image::canvas::Color;
use primitive_image::primitive_image::PrimitiveImage;
use primitive_image::runner::attempt;
use primitive_image::runner::family_of_draw;
use primitive_image::runner::output_format;
use primitive_image::runner::parse_selector;
use primitive_image::runner::OutputFormat;
use primitive_image::runner::ShapeSelector;
use primitive_image::shape::ShapeType;
use primitive_image::utilities::get_rng;
use rand::rngs::StdRng;
use rand::Rng;
use rand_distr::Normal;

fn gaussian(rng: &mut StdRng) -> i32 {
    let normal = Normal::new(0.0, 16.0).unwrap();
    rng.sample(normal) as i32
}

#[test]
fn test_parse_selector() {
    assert_eq!(parse_selector("TRIANGLE"), Some(ShapeSelector::Only(ShapeType::Triangle)));
    assert_eq!(parse_selector("QUADRATIC"), Some(ShapeSelector::Only(ShapeType::QuadraticBezier)));
    assert_eq!(parse_selector("CUBIC"), Some(ShapeSelector::Only(ShapeType::CubicBezier)));
    assert_eq!(parse_selector("RECTANGLE"), Some(ShapeSelector::Only(ShapeType::Rectangle)));
    assert_eq!(parse_selector("ELLIPSE"), Some(ShapeSelector::Only(ShapeType::Ellipse)));
    assert_eq!(parse_selector("MIXED"), Some(ShapeSelector::Mixed));
    assert_eq!(parse_selector("triangle"), None);
    assert_eq!(parse_selector("TRIANGLES"), None);
    assert_eq!(parse_selector(" TRIANGLE"), None);
    assert_eq!(parse_selector(""), None);
    assert_eq!(parse_selector("CIRCLE"), None);
}

#[test]
fn test_output_format() {
    assert_eq!(output_format("svg"), Some(OutputFormat::Svg));
    for raster in ["png", "jpg", "bmp", "ico", "gif"] {
        assert_eq!(output_format(raster), Some(OutputFormat::Raster));
    }
    assert_eq!(output_format("SVG"), None);
    assert_eq!(output_format("jpeg"), None);
    assert_eq!(output_format("tif"), None);
    assert_eq!(output_format(""), None);
}

#[test]
fn test_family_of_draw() {
    assert_eq!(family_of_draw(0), ShapeType::Triangle);
    assert_eq!(family_of_draw(1), ShapeType::QuadraticBezier);
    assert_eq!(family_of_draw(2), ShapeType::CubicBezier);
    assert_eq!(family_of_draw(3), ShapeType::Rectangle);
    assert_eq!(family_of_draw(4), ShapeType::Ellipse);
}

#[test]
fn test_pick_follows_the_selector() {
    let mut rng = get_rng(4);
    for family in [ShapeType::Triangle, ShapeType::Ellipse, ShapeType::CubicBezier] {
        for _ in 0..10 {
            assert_eq!(ShapeSelector::Only(family).pick(&mut rng), family);
        }
    }
    let mut seen = Vec::new();
    for _ in 0..200 {
        let family = ShapeSelector::Mixed.pick(&mut rng);
        if !seen.contains(&family) {
            seen.push(family);
        }
    }
    assert_eq!(seen.len(), 5);
}

#[test]
fn test_selector_supported_on() {
    assert!(ShapeSelector::Only(ShapeType::Triangle).supported_on(2, 2));
    assert!(!ShapeSelector::Only(ShapeType::Triangle).supported_on(0, 2));
    assert!(ShapeSelector::Only(ShapeType::Rectangle).supported_on(12, 12));
    assert!(!ShapeSelector::Only(ShapeType::Ellipse).supported_on(12, 12));
    assert!(!ShapeSelector::Mixed.supported_on(12, 12));
    assert!(!ShapeSelector::Mixed.supported_on(19, 19));
    assert!(ShapeSelector::Mixed.supported_on(20, 1));
}

#[test]
fn test_attempts_fill_a_session() {
    let pixels: Vec<Color> = (0..900u32)
        .map(|i| if i % 30 < 15 { Color::new(250, 20, 20, 255) } else { Color::new(20, 20, 250, 255) })
        .collect();
    let target = Canvas::from_pixels(30, 30, pixels).unwrap();
    let mut image = PrimitiveImage::new(target, Color::new(0, 0, 0, 255));
    let selector = ShapeSelector::Mixed;
    assert!(selector.supported_on(image.width(), image.height()));
    let mut rng = get_rng(2024);
    let mut accepted = 0;
    let mut tries = 0;
    while accepted < 5 {
        let before = image.squared_error();
        if attempt(&mut image, 5, &selector, &mut rng, &gaussian).unwrap() {
            accepted += 1;
            assert!(image.squared_error() < before);
        } else {
            assert_eq!(image.squared_error(), before);
        }
        assert_eq!(image.shapes().len(), accepted);
        tries += 1;
        assert!(tries < 2000);
    }
    for shape in image.shapes().iter() {
        assert!(shape.is_valid(30, 30));
        assert_eq!(shape.color().a, 128);
        assert_eq!(shape.color(), image.target_average_color_in_shape(shape));
    }
}
