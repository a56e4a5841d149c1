use ray_tracer_challenge::canvas::Canvas;
use ray_tracer_challenge::render::{merge_bands, merge_rows, render, render_band, render_rows, row_bands};

fn shade(x: usize, y: usize) -> u64 {
    (x as u64) * 1000 + (y as u64)
}

fn banded(width: u32, height: u32, count: u32) -> Canvas<u64> {
    let parts: Vec<(u32, u32, Canvas<u64>)> = row_bands(height, count)
        .into_iter()
        .rev()
        .map(|(start, end)| (start, end, render_band(width, height, start, end, &shade)))
        .collect();
    let mut image = Canvas::new(width, height);
    merge_bands(&mut image, &parts);
    image
}

#[test]
fn render_shades_every_pixel() {
    let image = render(3, 2, &shade);
    assert_eq!(image.pixels(), &vec![0, 1000, 2000, 1, 1001, 2001]);
}

#[test]
fn render_rows_keeps_other_rows() {
    let mut image = Canvas::of_color(2, 3, 5u64);
    render_rows(&mut image, 1, 2, &shade);
    assert_eq!(image.pixels(), &vec![5, 5, 1, 1001, 5, 5]);
}

#[test]
fn render_band_renders_only_its_rows() {
    let image: Canvas<u64> = render_band(2, 3, 2, 3, &shade);
    assert_eq!(image.pixels(), &vec![0, 0, 0, 0, 2, 1002]);
}

#[test]
fn merge_rows_copies_the_band() {
    let mut image = Canvas::of_color(2, 2, 1u64);
    let part = Canvas::of_color(2, 2, 8u64);
    merge_rows(&mut image, &part, 1, 2);
    assert_eq!(image.pixels(), &vec![1, 1, 8, 8]);
}

#[test]
fn bands_of_an_even_split() {
    let bands = row_bands(100, 10);
    assert_eq!(bands.len(), 10);
    assert_eq!(bands[0], (0, 10));
    assert_eq!(bands[9], (90, 100));
}

#[test]
fn bands_with_a_short_last_band() {
    let bands = row_bands(105, 10);
    assert_eq!(bands.len(), 11);
    assert_eq!(bands[10], (100, 105));
}

#[test]
fn bands_of_fewer_rows_than_workers() {
    assert_eq!(row_bands(3, 10), vec![(0, 1), (1, 2), (2, 3)]);
}

#[test]
fn bands_of_an_empty_image() {
    assert_eq!(row_bands(0, 10), vec![]);
}

#[test]
fn banded_render_matches_serial_render() {
    for &(width, height) in &[(11u32, 11u32), (4, 3), (7, 105), (1, 1), (0, 5)] {
        let serial = render(width, height, &shade);
        let parallel = banded(width, height, 10);
        assert_eq!(serial.pixels(), parallel.pixels());
    }
}
