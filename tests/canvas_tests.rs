use raytracer::canvas::Canvas;
use raytracer::color::Color;

#[test]
fn test_creating_canvas() {
    let canvas = Canvas::new(10, 20);

    assert_eq!(canvas.width, 10);
    assert_eq!(canvas.height, 20);

    for row in canvas.pixels {
        for pixel in row {
            assert_eq!(pixel.red, 0);
            assert_eq!(pixel.blue, 0);
            assert_eq!(pixel.green, 0);
        }
    }
}

#[test]
fn test_write_pixel() {
    let mut canvas = Canvas::new(20, 20);
    canvas.write_pixel(1, 1, Color::new(20, 0, 0));
    assert_eq!(canvas.pixels[1][1].red, 20)
}

#[test]
fn test_canvas_to_pmm() {
    let mut canvas = Canvas::new(2, 2);
    canvas.write_pixel(0, 0, Color::new(255, 0, 0));
    let expected_string = String::from("P3\n2 2\n255\n255 0 0 0 0 0 \n0 0 0 0 0 0 \n");
    assert_eq!(canvas.to_pmm(), expected_string);
}

#[test]
fn test_haramard_product() {
    let mut a = Color::new(1, 1, 1);

    let b = Color::new(5, 5, 5);
    a.haramard_product(&b);
    assert_eq!(a.red, 5);
    assert_eq!(a.green, 5);
    assert_eq!(a.blue, 5);
}

// Further cases.

#[test]
fn writing_outside_leaves_canvas_unchanged() {
    let mut canvas = Canvas::new(3, 2);
    let before = canvas.to_pmm();
    canvas.write_pixel(3, 0, Color::from_red());
    canvas.write_pixel(0, 2, Color::from_green());
    canvas.write_pixel(-1, 1, Color::from_blue());
    canvas.write_pixel(1, -1, Color::from_blue());
    assert_eq!(canvas.to_pmm(), before);
    assert_eq!(canvas.pixels.len(), 2);
    assert!(canvas.pixels.iter().all(|row| row.len() == 3));
}

#[test]
fn long_rows_get_an_extra_line_break() {
    // Each pixel "255 255 255 " is 12 characters: five make 60, past 58.
    let mut canvas = Canvas::new(5, 2);
    for x in 0..5 {
        canvas.write_pixel(x, 0, Color::new(255, 255, 255));
    }
    let row = "255 255 255 ".repeat(5);
    let expected = format!("P3\n5 2\n255\n{}\n\n0 0 0 0 0 0 0 0 0 0 0 0 0 0 0 \n", row);
    assert_eq!(canvas.to_pmm(), expected);
}

#[test]
fn count_carries_over_short_rows() {
    // Rows of 30 characters: the count passes 58 only after the second row.
    let mut canvas = Canvas::new(1, 3);
    let wide = Color::new(-1000000000, 1000000000, 1234567);
    canvas.write_pixel(0, 0, wide);
    canvas.write_pixel(0, 1, wide);
    canvas.write_pixel(0, 2, wide);
    let pixel = "-1000000000 1000000000 1234567 ";
    assert_eq!(pixel.len(), 31);
    let expected = format!("P3\n1 3\n255\n{p}\n{p}\n\n{p}\n", p = pixel);
    assert_eq!(canvas.to_pmm(), expected);
}

#[test]
fn negative_channels_are_written_with_a_sign() {
    let mut canvas = Canvas::new(1, 1);
    canvas.write_pixel(0, 0, Color::new(-5, 12, 300));
    assert_eq!(canvas.to_pmm(), "P3\n1 1\n255\n-5 12 300 \n");
}

#[test]
fn colour_channel_arithmetic() {
    let mut a = Color::new(10, 20, 30);
    a.add(&Color::new(1, 2, 3));
    assert_eq!((a.red, a.green, a.blue), (11, 22, 33));
    a.subtract(&Color::new(11, 2, 40));
    assert_eq!((a.red, a.green, a.blue), (0, 20, -7));
    let z = Color::zero();
    assert_eq!((z.red, z.green, z.blue), (0, 0, 0));
}
