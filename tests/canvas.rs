use ray_tracer_challenge::canvas::Canvas;
use ray_tracer_challenge::ppm::encode_ppm;

const EPSILON: f32 = 0.00001;

#[derive(Clone, Copy, Debug, Default, PartialEq)]
struct Color {
    red: f32,
    green: f32,
    blue: f32,
}

const BLACK: Color = Color { red: 0.0, green: 0.0, blue: 0.0 };

impl Color {
    fn new(red: f32, green: f32, blue: f32) -> Self {
        Color { red, green, blue }
    }

    fn equalish_to(&self, other: &Self) -> bool {
        (self.red - other.red).abs() < EPSILON
            && (self.green - other.green).abs() < EPSILON
            && (self.blue - other.blue).abs() < EPSILON
    }
}

fn channel(value: f32) -> u8 {
    (value.max(0.0).min(1.0) * 255.0).round() as u8
}

fn to_ppm(canvas: &Canvas<Color>) -> String {
    let mut channels = Vec::new();
    for pixel in canvas.pixels().iter() {
        channels.push(channel(pixel.red));
        channels.push(channel(pixel.green));
        channels.push(channel(pixel.blue));
    }
    String::from_utf8(encode_ppm(canvas.width(), canvas.height(), &channels)).unwrap()
}

#[test]
fn initialization() {
    let canvas: Canvas<Color> = Canvas::new(10, 20);

    assert!(canvas.width() == 10);
    assert!(canvas.height() == 20);

    for i in 0..(10 * 20) {
        let pixel = &canvas.pixels()[i];

        assert!(pixel.red == BLACK.red);
        assert!(pixel.green == BLACK.green);
        assert!(pixel.blue == BLACK.blue);
    }
}

#[test]
fn writing_and_reading_pixels() {
    let mut canvas: Canvas<Color> = Canvas::new(10, 20);
    let red = Color::new(1.0, 0.0, 0.0);

    canvas.write_pixel(2, 3, red);

    let pixel = canvas.pixel_at(2, 3);

    assert!(pixel.equalish_to(&red));
    assert!(canvas.pixels()[32].equalish_to(&red), "Actual: {:?}", canvas.pixels()[32]);
}

#[test]
fn ppm_headers() {
    let canvas: Canvas<Color> = Canvas::new(5, 3);

    let ppm = to_ppm(&canvas);
    let lines: Vec<&str> = ppm.split("\n").collect();

    assert!(lines[0].trim() == "P3", "Actual: {}", lines[0].trim());
    assert!(lines[1].trim() == "5 3", "Actual: {}", lines[1].trim());
    assert!(lines[2].trim() == "255", "Actual: {}", lines[2].trim());
}

#[test]
fn ppm_content() {
    let mut canvas: Canvas<Color> = Canvas::new(5, 3);
    let c1 = Color::new(1.5, 0.0, 0.0);
    let c2 = Color::new(0.0, 0.5, 0.0);
    let c3 = Color::new(-0.5, 0.0, 1.0);

    canvas.write_pixel(0, 0, c1);
    canvas.write_pixel(2, 1, c2);
    canvas.write_pixel(4, 2, c3);

    let ppm = to_ppm(&canvas);
    let lines: Vec<&str> = ppm.split("\n").collect();

    assert!(lines[3].trim() == "255 0 0 0 0 0 0 0 0 0 0 0 0 0 0", "Actual: {}", lines[3].trim());
    assert!(lines[4].trim() == "0 0 0 0 0 0 0 128 0 0 0 0 0 0 0", "Actual: {}", lines[4].trim());
    assert!(lines[5].trim() == "0 0 0 0 0 0 0 0 0 0 0 0 0 0 255", "Actual: {}", lines[5].trim());
}

#[test]
fn well_formatted_ppm_content() {
    let color = Color::new(1.0, 0.8, 0.6);
    let canvas = Canvas::of_color(10, 2, color);

    let ppm = to_ppm(&canvas);
    let lines: Vec<&str> = ppm.split("\n").collect();

    let expected = "255 204 153 255 204 153 255 204 153 255 204 153 255 204 153 255 204";
    let actual = lines[3].trim();
    assert!(expected == actual, "\nExpected: {}\nActual:   {}\n", expected, actual);

    let expected = "153 255 204 153 255 204 153 255 204 153 255 204 153";
    let actual = lines[4].trim();
    assert!(expected == actual, "\nExpected: {}\nActual:   {}\n", expected, actual);

    let expected = "255 204 153 255 204 153 255 204 153 255 204 153 255 204 153 255 204";
    let actual = lines[5].trim();
    assert!(expected == actual, "\nExpected: {}\nActual:   {}\n", expected, actual);

    let expected = "153 255 204 153 255 204 153 255 204 153 255 204 153";
    let actual = lines[6].trim();
    assert!(expected == actual, "\nExpected: {}\nActual:   {}\n", expected, actual);
}

#[test]
fn ppm_ends_with_newline() {
    let canvas: Canvas<Color> = Canvas::new(5, 3);
    let ppm = to_ppm(&canvas);
    assert!(ppm.ends_with('\n'));
    assert_eq!(ppm.lines().count(), 6);
}

#[test]
fn write_keeps_other_pixels() {
    let mut canvas = Canvas::of_color(3, 2, 7u32);
    canvas.write_pixel(1, 1, 9);
    assert_eq!(canvas.pixels(), &vec![7, 7, 7, 7, 9, 7]);
    assert_eq!(canvas.pixel_at(1, 1), 9);
    assert_eq!(canvas.pixel_at(1, 0), 7);
}

#[test]
fn empty_canvas_has_no_pixels() {
    let canvas: Canvas<u8> = Canvas::new(0, 4);
    assert_eq!(canvas.pixels().len(), 0);
    assert_eq!(canvas.height(), 4);
}
