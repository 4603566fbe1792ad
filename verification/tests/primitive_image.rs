use primitive_image::canvas::Canvas;
use primitive_image::canvas::Color;
use primitive_image::point::PrimitivePoint;
use primitive_image::primitive_image::Climb;
use primitive_image::primitive_image::PrimitiveImage;
use primitive_image::rectangle::Rectangle;
use primitive_image::shape::Shape;
use primitive_image::shape::ShapeError;
use primitive_image::shape::ShapeType;
use primitive_image::triangle::Triangle;
use primitive_image::utilities::get_rng;
use rand::rngs::StdRng;
use rand::Rng;
use rand_distr::Normal;

fn gaussian(rng: &mut StdRng) -> i32 {
    let normal = Normal::new(0.0, 16.0).unwrap();
    rng.sample(normal) as i32
}

fn triangle(points: [(i32, i32); 3], color: Color) -> Shape {
    Shape::Triangle(Triangle {
        color,
        path: [
            PrimitivePoint::new(points[0].0, points[0].1),
            PrimitivePoint::new(points[1].0, points[1].1),
            PrimitivePoint::new(points[2].0, points[2].1),
        ],
    })
}

fn fit_one_triangle(seed: u64, max_age: u32) -> PrimitiveImage {
    let target = Canvas::from_pixel(2, 2, Color::new(200, 100, 50, 255));
    let mut image = PrimitiveImage::new(target, Color::new(0, 0, 0, 255));
    let mut rng = get_rng(seed);
    let mut tries = 0;
    while !image.add_new_shape(max_age, &ShapeType::Triangle, &mut rng, &gaussian).unwrap() {
        tries += 1;
        assert!(tries < 1000);
    }
    image
}

#[test]
fn test_score() {
    let approximation = Color::new(0, 0, 0, 128);
    let target = Canvas::from_pixel(2, 2, Color::new(10, 10, 10, 128));
    let primitive = PrimitiveImage::new(target, approximation);

    // sqrt((Error(10.0)*Error(10.0)*NumChannelsWithError(3.0)*NumPixels(4.0))/(NumChannels(4.0)*NumPixels(4.0))
    let expected_score = ((10.0 * 10.0 * 3.0 * 4.0) / (4.0 * 4.0) as f64).sqrt();

    assert_eq!(primitive.squared_error(), 1200);
    let score = (primitive.squared_error() as f64 / (4.0 * 4.0)).sqrt();
    assert_eq!(score, expected_score);
}

#[test]
fn test_new_session_is_all_background() {
    let target = Canvas::from_pixel(3, 2, Color::new(10, 10, 10, 255));
    let image = PrimitiveImage::new(target, Color::new(1, 2, 3, 4));
    assert_eq!(image.width(), 3);
    assert_eq!(image.height(), 2);
    assert_eq!(image.background(), Color::new(1, 2, 3, 4));
    assert_eq!(image.shapes().len(), 0);
    assert_eq!(image.approximation().pixels(), &vec![Color::new(1, 2, 3, 4); 6]);
    assert_eq!(image.target().pixels(), &vec![Color::new(10, 10, 10, 255); 6]);
}

#[test]
fn test_target_average_color_in_shape() {
    let pixels = vec![
        Color::new(10, 0, 0, 255),
        Color::new(20, 0, 0, 255),
        Color::new(40, 100, 0, 255),
        Color::new(80, 0, 7, 255),
    ];
    let image = PrimitiveImage::new(Canvas::from_pixels(2, 2, pixels).unwrap(), Color::new(0, 0, 0, 255));
    // The triangle covers (0, 0), (0, 1) and (1, 0).
    let mut shape = triangle([(0, 0), (1, 0), (0, 1)], Color::new(0, 0, 0, 0));
    assert_eq!(image.target_average_color_in_shape(&shape), Color::new(23, 33, 0, 128));
    shape.set_color_using(&image);
    assert_eq!(shape, triangle([(0, 0), (1, 0), (0, 1)], Color::new(23, 33, 0, 128)));
    // A shape that covers nothing of the canvas gets transparent black.
    let mut outside = triangle([(10, 10), (12, 10), (10, 12)], Color::new(9, 9, 9, 9));
    outside.set_color_using(&image);
    assert_eq!(outside.color(), Color::new(0, 0, 0, 0));
}

#[test]
fn test_accept_if_better_takes_an_improvement() {
    let target = Canvas::from_pixel(2, 2, Color::new(200, 100, 50, 255));
    let mut image = PrimitiveImage::new(target, Color::new(0, 0, 0, 255));
    let before = image.squared_error();
    let shape = triangle([(0, 0), (1, 0), (0, 1)], Color::new(200, 100, 50, 128));
    let with_shape = image.squared_error_with(&shape);
    assert!(with_shape < before);
    assert_eq!(image.squared_error(), before);
    assert!(image.accept_if_better(shape));
    assert_eq!(image.shapes(), &vec![shape]);
    assert_eq!(image.squared_error(), with_shape);
    let painted = Color::new(0, 0, 0, 255).painted_with(Color::new(200, 100, 50, 128));
    assert_eq!(
        image.approximation().pixels(),
        &vec![painted, painted, painted, Color::new(0, 0, 0, 255)]
    );
    // A second shape goes on top of the first and behind it in the list.
    let second = triangle([(1, 1), (1, 0), (0, 1)], Color::new(200, 100, 50, 128));
    assert!(image.accept_if_better(second));
    assert_eq!(image.shapes(), &vec![shape, second]);
    let twice = painted.painted_with(Color::new(200, 100, 50, 128));
    assert_eq!(image.approximation().pixels(), &vec![painted, twice, twice, painted]);
}

#[test]
fn test_accept_if_better_refuses_what_does_not_improve() {
    let target = Canvas::from_pixel(2, 2, Color::new(200, 100, 50, 255));
    let mut image = PrimitiveImage::new(target, Color::new(200, 100, 50, 255));
    assert_eq!(image.squared_error(), 0);
    let worse = triangle([(0, 0), (1, 0), (0, 1)], Color::new(0, 0, 0, 128));
    assert!(!image.accept_if_better(worse));
    let outside = triangle([(10, 10), (12, 10), (10, 12)], Color::new(0, 0, 0, 128));
    assert!(!image.accept_if_better(outside));
    assert_eq!(image.shapes().len(), 0);
    assert_eq!(image.approximation().pixels(), &vec![Color::new(200, 100, 50, 255); 4]);
}

#[test]
fn test_add_new_shape_leaves_a_perfect_approximation_alone() {
    let target = Canvas::from_pixel(4, 4, Color::new(200, 100, 50, 255));
    let mut image = PrimitiveImage::new(target, Color::new(200, 100, 50, 255));
    let mut rng = get_rng(42);
    for kind in [ShapeType::Triangle, ShapeType::QuadraticBezier, ShapeType::CubicBezier] {
        for _ in 0..5 {
            assert_eq!(image.add_new_shape(5, &kind, &mut rng, &gaussian), Ok(false));
            assert_eq!(image.shapes().len(), 0);
            assert_eq!(image.approximation().pixels(), &vec![Color::new(200, 100, 50, 255); 16]);
            assert_eq!(image.squared_error(), 0);
        }
    }
}

#[test]
fn test_add_new_shape_is_repeatable() {
    let first = fit_one_triangle(42, 10);
    let second = fit_one_triangle(42, 10);
    assert_eq!(first.shapes().len(), 1);
    assert_eq!(first.shapes(), second.shapes());
    assert_eq!(first.approximation().pixels(), second.approximation().pixels());
    match first.shapes()[0] {
        Shape::Triangle(t) => {
            assert!(t.is_valid());
            assert_eq!(t.color, Color::new(200, 100, 50, 128));
        },
        _ => panic!("a triangle was asked for"),
    }
    assert!(first.squared_error() < 4 * (200 * 200 + 100 * 100 + 50 * 50));
}

#[test]
fn test_add_new_shape_improves_or_leaves_alone() {
    let pixels: Vec<Color> =
        (0..400u32).map(|i| Color::new((i % 20 * 12) as u8, (i / 20 * 12) as u8, 90, 255)).collect();
    let target = Canvas::from_pixels(20, 20, pixels).unwrap();
    let background = target.average_color();
    let mut image = PrimitiveImage::new(target, background);
    let mut rng = get_rng(7);
    let kinds = [
        ShapeType::Triangle,
        ShapeType::Rectangle,
        ShapeType::Ellipse,
        ShapeType::QuadraticBezier,
        ShapeType::CubicBezier,
    ];
    for round in 0..15 {
        let kind = kinds[round % 5];
        assert!(kind.supported_on(20, 20, 6));
        let shapes_before = image.shapes().clone();
        let pixels_before = image.approximation().pixels().clone();
        let score_before = image.squared_error();
        match image.add_new_shape(8, &kind, &mut rng, &gaussian) {
            Ok(true) => {
                assert_eq!(image.shapes().len(), shapes_before.len() + 1);
                assert_eq!(image.shapes()[..shapes_before.len()], shapes_before[..]);
                let added = image.shapes()[shapes_before.len()];
                assert_eq!(added.kind(), kind);
                assert!(added.is_valid(20, 20));
                assert_eq!(added.color().a, 128);
                assert!(image.squared_error() < score_before);
            },
            Ok(false) | Err(ShapeError::GenerationExhausted) => {
                assert_eq!(image.shapes(), &shapes_before);
                assert_eq!(image.approximation().pixels(), &pixels_before);
                assert_eq!(image.squared_error(), score_before);
            },
        }
    }
    // The approximation is the background with the accepted shapes painted in their order.
    let mut replay = Canvas::from_pixel(20, 20, background);
    for shape in image.shapes().iter() {
        replay = shape.paint_on(&replay);
    }
    assert_eq!(replay.pixels(), image.approximation().pixels());
}

#[test]
fn test_climb_keeps_the_best() {
    let a = triangle([(0, 0), (5, 0), (0, 5)], Color::new(1, 1, 1, 128));
    let b = triangle([(0, 0), (6, 0), (0, 6)], Color::new(2, 2, 2, 128));
    let c = triangle([(0, 0), (7, 0), (0, 7)], Color::new(3, 3, 3, 128));
    let mut climb = Climb::start(a, 100);
    assert_eq!((climb.best_shape, climb.best_score, climb.age), (a, 100, 0));
    assert!(!climb.observe(b, 100));
    assert_eq!((climb.best_shape, climb.best_score, climb.age), (a, 100, 1));
    assert!(!climb.observe(b, 250));
    assert_eq!((climb.best_shape, climb.best_score, climb.age), (a, 100, 2));
    assert!(climb.observe(c, 99));
    assert_eq!((climb.best_shape, climb.best_score, climb.age), (c, 99, 0));
    let mut last = climb.best_score;
    for score in [500u128, 98, 98, 97, 1000, 0, 3] {
        climb.observe(b, score);
        assert!(climb.best_score <= last);
        last = climb.best_score;
    }
    assert_eq!(climb.best_score, 0);
    assert_eq!(climb.age, 1);
}

#[test]
fn test_supported_on() {
    assert!(ShapeType::Triangle.supported_on(2, 2, 6));
    assert!(ShapeType::CubicBezier.supported_on(1, 1, 1));
    assert!(!ShapeType::Triangle.supported_on(0, 2, 6));
    assert!(!ShapeType::Triangle.supported_on(2, 0, 6));
    assert!(!ShapeType::Triangle.supported_on(2, 2, 0));
    assert!(ShapeType::QuadraticBezier.supported_on(i32::MAX as u32 - 6, 5, 6));
    assert!(!ShapeType::QuadraticBezier.supported_on(i32::MAX as u32 - 5, 5, 6));
    assert!(!ShapeType::Rectangle.supported_on(11, 11, 6));
    assert!(ShapeType::Rectangle.supported_on(12, 3, 6));
    assert!(!ShapeType::Ellipse.supported_on(19, 19, 6));
    assert!(ShapeType::Ellipse.supported_on(3, 20, 6));
}

#[test]
fn test_shapes_of_every_family() {
    let mut rng = get_rng(77);
    let kinds = [
        ShapeType::Triangle,
        ShapeType::Rectangle,
        ShapeType::Ellipse,
        ShapeType::QuadraticBezier,
        ShapeType::CubicBezier,
    ];
    let canvas = Canvas::from_pixel(40, 30, Color::new(255, 255, 255, 255));
    for kind in kinds {
        let mut shape = Shape::random(kind, 40, 30, 6, &mut rng, &gaussian).unwrap();
        assert_eq!(shape.kind(), kind);
        assert_eq!(shape.color(), Color::new(0, 0, 0, 128));
        for _ in 0..20 {
            shape.mutate(40, 30, &mut rng, &gaussian).unwrap();
            assert!(shape.is_valid(40, 30));
            assert_eq!(shape.kind(), kind);
        }
        let pixels = shape.get_pixels();
        let painted = shape.paint_on(&canvas);
        assert_eq!(painted.pixels(), canvas.paint(&pixels, shape.color()).pixels());
    }
    let rect = Shape::Rectangle(Rectangle {
        color: Color::new(0, 0, 0, 128),
        center: PrimitivePoint::new(1, 1),
        width: 2,
        height: 2,
        angle: 0,
    });
    let small = Canvas::from_pixel(2, 2, Color::new(255, 255, 255, 255));
    let once = Color::new(255, 255, 255, 255).painted_with(Color::new(0, 0, 0, 128));
    // The pixels in the first row and the first column belong to the canvas too.
    assert_eq!(rect.paint_on(&small).pixels(), &vec![once; 4]);
}

#[test]
fn test_add_new_shape_without_patience_judges_the_first_shape() {
    let target = Canvas::from_pixel(6, 6, Color::new(200, 100, 50, 255));
    let mut image = PrimitiveImage::new(target, Color::new(0, 0, 0, 255));
    let mut rng = get_rng(3);
    let mut accepted = 0;
    for _ in 0..50 {
        let before = image.squared_error();
        match image.add_new_shape(0, &ShapeType::Triangle, &mut rng, &gaussian) {
            Ok(true) => {
                accepted += 1;
                assert!(image.squared_error() < before);
            },
            Ok(false) => assert_eq!(image.squared_error(), before),
            Err(e) => panic!("{:?}", e),
        }
        assert_eq!(image.shapes().len(), accepted);
    }
    assert!(accepted > 0);
}

#[test]
fn test_climb_age_stops_at_the_end_of_its_range() {
    let a = triangle([(0, 0), (5, 0), (0, 5)], Color::new(1, 1, 1, 128));
    let mut climb = Climb { best_shape: a, best_score: 10, age: u32::MAX - 1 };
    assert!(!climb.observe(a, 10));
    assert_eq!(climb.age, u32::MAX);
    assert!(!climb.observe(a, 11));
    assert_eq!(climb.age, u32::MAX);
    assert!(climb.observe(a, 9));
    assert_eq!((climb.best_score, climb.age), (9, 0));
}
