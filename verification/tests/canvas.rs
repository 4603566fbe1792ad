use primitive_image::canvas::mean_of;
use primitive_image::canvas::Canvas;
use primitive_image::canvas::Color;
use primitive_image::point::PrimitivePoint;

#[test]
fn test_average_color() {
    // The average of a solid colored image is that color
    let test_im_1 = Canvas::from_pixel(10, 10, Color::new(255, 128, 0, 128));
    assert_eq!(test_im_1.average_color(), Color::new(255, 128, 0, 128));

    // Average color always returns a color with alpha=128
    let test_im_2 = Canvas::from_pixel(10, 10, Color::new(255, 128, 0, 255));
    assert_eq!(test_im_2.average_color(), Color::new(255, 128, 0, 128));

    // Test with two pixels, each a different color
    let test_im_3 =
        Canvas::from_pixels(1, 2, vec![Color::new(0, 0, 0, 128), Color::new(10, 10, 10, 128)])
            .unwrap();
    assert_eq!(test_im_3.average_color(), Color::new(5, 5, 5, 128));
}

#[test]
fn test_average_color_rounds_down_and_forces_alpha() {
    let canvas = Canvas::from_pixels(
        3,
        1,
        vec![Color::new(1, 0, 255, 0), Color::new(2, 0, 255, 7), Color::new(2, 1, 254, 255)],
    )
    .unwrap();
    assert_eq!(canvas.average_color(), Color::new(1, 0, 254, 128));
    for alpha in [0u8, 1, 127, 128, 129, 255] {
        let canvas = Canvas::from_pixel(2, 3, Color::new(9, 9, 9, alpha));
        assert_eq!(canvas.average_color().a, 128);
    }
}

#[test]
fn test_average_color_of_nothing_has_the_fitted_alpha() {
    let empty = Canvas::from_pixel(0, 5, Color::new(1, 2, 3, 4));
    assert_eq!(empty.average_color(), Color::new(0, 0, 0, 128));
    assert_eq!(Canvas::from_pixel(0, 0, Color::new(9, 9, 9, 9)).average_color().a, 128);
    // The mean of no colours, and the colour under no point, stay transparent black.
    assert_eq!(mean_of(&vec![]), Color::new(0, 0, 0, 0));
    assert_eq!(empty.average_color_at(&vec![]), Color::new(0, 0, 0, 0));
}

#[test]
fn test_from_pixels_wants_the_right_count() {
    let c = Color::new(1, 2, 3, 4);
    assert!(Canvas::from_pixels(2, 2, vec![c, c, c]).is_none());
    assert!(Canvas::from_pixels(2, 2, vec![c, c, c, c, c]).is_none());
    assert!(Canvas::from_pixels(0, 7, vec![c]).is_none());
    let canvas = Canvas::from_pixels(2, 2, vec![c, c, c, c]).unwrap();
    assert_eq!(canvas.width(), 2);
    assert_eq!(canvas.height(), 2);
    assert_eq!(canvas.pixels(), &vec![c, c, c, c]);
    assert!(Canvas::from_pixels(0, 7, vec![]).is_some());
}

#[test]
fn test_get_pixel_is_row_major() {
    let pixels: Vec<Color> = (0..6).map(|i| Color::new(i, 0, 0, 255)).collect();
    let canvas = Canvas::from_pixels(3, 2, pixels).unwrap();
    assert_eq!(canvas.get_pixel(0, 0).r, 0);
    assert_eq!(canvas.get_pixel(2, 0).r, 2);
    assert_eq!(canvas.get_pixel(0, 1).r, 3);
    assert_eq!(canvas.get_pixel(2, 1).r, 5);
    let copy = canvas.duplicate();
    assert_eq!(copy.pixels(), canvas.pixels());
    assert_eq!((copy.width(), copy.height()), (3, 2));
}

#[test]
fn test_painted_with_blends_and_keeps_the_alpha() {
    let white = Color::new(255, 255, 255, 255);
    let black = Color::new(0, 0, 0, 128);
    let mixed = white.painted_with(black);
    assert_ne!(mixed, white);
    assert_ne!(mixed, black);
    assert!(126 <= mixed.r && mixed.r <= 128);
    assert_eq!((mixed.g, mixed.b), (mixed.r, mixed.r));
    assert_eq!(mixed.a, 255);

    // The canvas pixel counts as opaque whatever its alpha is, and keeps that alpha.
    let faint = Color::new(255, 255, 255, 3);
    let over_faint = faint.painted_with(black);
    assert_eq!((over_faint.r, over_faint.g, over_faint.b), (mixed.r, mixed.g, mixed.b));
    assert_eq!(over_faint.a, 3);

    let solid = Color::new(10, 20, 30, 255);
    assert_eq!(white.painted_with(solid), Color::new(10, 20, 30, 255));
    assert_eq!(faint.painted_with(solid), Color::new(10, 20, 30, 3));
    assert_eq!(white.with_alpha(9), Color::new(255, 255, 255, 9));
}

#[test]
fn test_paint_skips_points_outside_and_repeats_points_given_twice() {
    let white = Color::new(255, 255, 255, 255);
    let black = Color::new(0, 0, 0, 128);
    let canvas = Canvas::from_pixel(3, 2, white);
    let points = vec![
        PrimitivePoint::new(0, 0),
        PrimitivePoint::new(2, 1),
        PrimitivePoint::new(2, 1),
        PrimitivePoint::new(-1, 0),
        PrimitivePoint::new(0, -1),
        PrimitivePoint::new(3, 0),
        PrimitivePoint::new(0, 2),
        PrimitivePoint::new(i32::MAX, i32::MIN),
    ];
    let out = canvas.paint(&points, black);
    let once = white.painted_with(black);
    let twice = once.painted_with(black);
    assert_eq!(
        out.pixels(),
        &vec![once, white, white, white, white, twice]
    );
    assert_ne!(once, twice);
    // The canvas that was painted on is as it was.
    assert_eq!(canvas.pixels(), &vec![white; 6]);
    assert_eq!((out.width(), out.height()), (3, 2));
}

#[test]
fn test_average_color_at_counts_only_points_inside() {
    let pixels = vec![
        Color::new(10, 0, 0, 255),
        Color::new(20, 0, 0, 255),
        Color::new(40, 100, 0, 255),
        Color::new(80, 0, 7, 255),
    ];
    let canvas = Canvas::from_pixels(2, 2, pixels).unwrap();
    let points = vec![
        PrimitivePoint::new(1, 0),
        PrimitivePoint::new(0, 1),
        PrimitivePoint::new(0, 1),
        PrimitivePoint::new(5, 5),
        PrimitivePoint::new(-1, 1),
    ];
    // (20 + 40 + 40) / 3, (0 + 100 + 100) / 3, 0
    assert_eq!(canvas.average_color_at(&points), Color::new(33, 66, 0, 128));
    assert_eq!(
        canvas.colors_under(&points),
        vec![Color::new(20, 0, 0, 255), Color::new(40, 100, 0, 255), Color::new(40, 100, 0, 255)]
    );
    assert_eq!(
        canvas.average_color_at(&vec![PrimitivePoint::new(2, 0), PrimitivePoint::new(0, 2)]),
        Color::new(0, 0, 0, 0)
    );
    assert_eq!(canvas.average_color_at(&vec![]), Color::new(0, 0, 0, 0));
}

#[test]
fn test_squared_error() {
    let a = Canvas::from_pixel(2, 2, Color::new(0, 0, 0, 128));
    let b = Canvas::from_pixel(2, 2, Color::new(10, 10, 10, 128));
    assert_eq!(a.squared_error(&b), 1200);
    assert_eq!(b.squared_error(&a), 1200);
    assert_eq!(a.squared_error(&a), 0);
    let c = Canvas::from_pixel(2, 2, Color::new(255, 255, 255, 255));
    let d = Canvas::from_pixel(2, 2, Color::new(0, 0, 0, 0));
    assert_eq!(c.squared_error(&d), 4 * 4 * 255 * 255);
    let e = Canvas::from_pixels(
        2,
        1,
        vec![Color::new(0, 0, 0, 128), Color::new(1, 2, 3, 132)],
    )
    .unwrap();
    let f = Canvas::from_pixel(2, 1, Color::new(0, 0, 0, 128));
    assert_eq!(e.squared_error(&f), 1 + 4 + 9 + 16);
}
