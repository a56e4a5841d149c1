use vstd::prelude::*;

use crate::canvas::Canvas;

verus! {

/// Every pixel of the rows `start <= y < end` of `image` is a value that
/// `shade` may return for its coordinates.
pub open spec fn rows_shaded<T: Copy, F: Fn(usize, usize) -> T>(
    image: Canvas<T>,
    start: int,
    end: int,
    shade: F,
) -> bool {
    forall|x: int, y: int|
        0 <= x < image.spec_width() && start <= y < end ==> shade.ensures(
            (x as usize, y as usize),
            #[trigger] image.spec_pixel(x, y),
        )
}

/// `shade` may be called on every pixel of the rows `start <= y < end` of a
/// `width`-wide image.
pub open spec fn shade_callable<T, F: Fn(usize, usize) -> T>(
    width: int,
    start: int,
    end: int,
    shade: F,
) -> bool {
    forall|x: int, y: int|
        0 <= x < width && start <= y < end ==> #[trigger] shade.requires((x as usize, y as usize))
}

/// `shade` returns one value per pixel: two calls on the same coordinates
/// agree.
pub open spec fn deterministic<T, F: Fn(usize, usize) -> T>(shade: F) -> bool {
    forall|x: usize, y: usize, a: T, b: T|
        #[trigger] shade.ensures((x, y), a) && #[trigger] shade.ensures((x, y), b) ==> a == b
}

/// Renders the rows `start_y <= y < end_y` of `image`, each pixel `(x, y)`
/// getting `shade(x, y)`; the other rows are kept.
pub fn render_rows<T: Copy, F: Fn(usize, usize) -> T>(
    image: &mut Canvas<T>,
    start_y: u32,
    end_y: u32,
    shade: &F,
)
    requires
        old(image).wf(),
        start_y <= end_y <= old(image).spec_height(),
        shade_callable(old(image).spec_width() as int, start_y as int, end_y as int, *shade),
    ensures
        final(image).wf(),
        final(image).spec_width() == old(image).spec_width(),
        final(image).spec_height() == old(image).spec_height(),
        rows_shaded(*final(image), start_y as int, end_y as int, *shade),
        forall|x: int, y: int|
            final(image).in_bounds(x, y) && !(start_y <= y < end_y) ==> #[trigger] final(image).spec_pixel(x, y) == old(image).spec_pixel(x, y),
{
    let width = image.width();
    let ghost w = width as int;
    let mut y: u32 = start_y;
    while y < end_y
        invariant
            start_y <= y <= end_y <= image.spec_height(),
            image.wf(),
            image.spec_width() == w,
            image.spec_height() == old(image).spec_height(),
            width == w,
            w == old(image).spec_width(),
            shade_callable(w, start_y as int, end_y as int, *shade),
            rows_shaded(*image, start_y as int, y as int, *shade),
            forall|px: int, py: int|
                image.in_bounds(px, py) && !(start_y <= py < y) ==> #[trigger] image.spec_pixel(px, py)
                    == old(image).spec_pixel(px, py),
        decreases end_y - y,
    {
        let ghost before = *image;
        let mut x: u32 = 0;
        while x < width
            invariant
                start_y <= y < end_y <= image.spec_height(),
                0 <= x <= width,
                image.wf(),
                image.spec_width() == w,
                image.spec_height() == before.spec_height(),
                before.wf(),
                before.spec_width() == w,
                width == w,
                rows_shaded(before, start_y as int, y as int, *shade),
                shade_callable(w, start_y as int, end_y as int, *shade),
                forall|px: int, py: int|
                    0 <= px < w && start_y <= py < end_y ==> #[trigger] shade.requires(
                        (px as usize, py as usize),
                    ),
                forall|px: int, py: int|
                    0 <= px < x && py == y ==> shade.ensures(
                        (px as usize, py as usize),
                        #[trigger] image.spec_pixel(px, py),
                    ),
                forall|px: int, py: int|
                    image.in_bounds(px, py) && !(py == y && px < x) ==> #[trigger] image.spec_pixel(
                        px,
                        py,
                    ) == before.spec_pixel(px, py),
            decreases width - x,
        {
            assert(shade.requires((x as usize, y as usize)));
            let color = shade(x as usize, y as usize);
            let ghost prev = *image;
            image.write_pixel(x, y, color);
            assert forall|px: int, py: int| 0 <= px <= x && py == y implies shade.ensures(
                (px as usize, py as usize),
                #[trigger] image.spec_pixel(px, py),
            ) by {
                assert(image.in_bounds(px, py));
                if px < x {
                    assert(prev.in_bounds(px, py));
                }
            }
            x = x + 1;
        }
        y = y + 1;
    }
}

/// Renders a `width` x `height` image, one row after the other: pixel
/// `(x, y)` gets `shade(x, y)`.
pub fn render<T: Copy + Default, F: Fn(usize, usize) -> T>(width: u32, height: u32, shade: &F) -> (image:
    Canvas<T>)
    requires
        width as int * height as int <= usize::MAX,
        shade_callable(width as int, 0, height as int, *shade),
    ensures
        image.wf(),
        image.spec_width() == width,
        image.spec_height() == height,
        rows_shaded(image, 0, height as int, *shade),
{
    let mut image = Canvas::new(width, height);
    render_rows(&mut image, 0, height, shade);
    image
}

/// A worker's share of a banded render: a private full-size image whose rows
/// `start_y <= y < end_y` are rendered with `shade`.
pub fn render_band<T: Copy + Default, F: Fn(usize, usize) -> T>(
    width: u32,
    height: u32,
    start_y: u32,
    end_y: u32,
    shade: &F,
) -> (image: Canvas<T>)
    requires
        width as int * height as int <= usize::MAX,
        start_y <= end_y <= height,
        shade_callable(width as int, start_y as int, end_y as int, *shade),
    ensures
        image.wf(),
        image.spec_width() == width,
        image.spec_height() == height,
        rows_shaded(image, start_y as int, end_y as int, *shade),
{
    let mut image = Canvas::new(width, height);
    render_rows(&mut image, start_y, end_y, shade);
    image
}

/// Copies the rows `start_y <= y < end_y` of `part` into `image`; the other
/// rows of `image` are kept.
pub fn merge_rows<T: Copy>(image: &mut Canvas<T>, part: &Canvas<T>, start_y: u32, end_y: u32)
    requires
        old(image).wf(),
        part.wf(),
        part.spec_width() == old(image).spec_width(),
        part.spec_height() == old(image).spec_height(),
        start_y <= end_y <= old(image).spec_height(),
    ensures
        final(image).wf(),
        final(image).spec_width() == old(image).spec_width(),
        final(image).spec_height() == old(image).spec_height(),
        forall|x: int, y: int|
            #[trigger] final(image).in_bounds(x, y) ==> final(image).spec_pixel(x, y) == if start_y <= y
                < end_y {
                part.spec_pixel(x, y)
            } else {
                old(image).spec_pixel(x, y)
            },
{
    let width = image.width();
    let mut y: u32 = start_y;
    while y < end_y
        invariant
            start_y <= y <= end_y <= image.spec_height(),
            image.wf(),
            image.spec_width() == old(image).spec_width() == width,
            image.spec_height() == old(image).spec_height(),
            part.wf(),
            part.spec_width() == width,
            part.spec_height() == image.spec_height(),
            forall|px: int, py: int|
                #[trigger] image.in_bounds(px, py) ==> image.spec_pixel(px, py) == if start_y <= py < y {
                    part.spec_pixel(px, py)
                } else {
                    old(image).spec_pixel(px, py)
                },
        decreases end_y - y,
    {
        let mut x: u32 = 0;
        while x < width
            invariant
                start_y <= y < end_y <= image.spec_height(),
                0 <= x <= width,
                image.wf(),
                image.spec_width() == old(image).spec_width() == width,
                image.spec_height() == old(image).spec_height(),
                part.wf(),
                part.spec_width() == width,
                part.spec_height() == image.spec_height(),
                forall|px: int, py: int|
                    #[trigger] image.in_bounds(px, py) ==> image.spec_pixel(px, py) == if start_y <= py
                        < y || (py == y && px < x) {
                        part.spec_pixel(px, py)
                    } else {
                        old(image).spec_pixel(px, py)
                    },
            decreases width - x,
        {
            let color = part.pixel_at(x, y);
            let ghost prev = *image;
            image.write_pixel(x, y, color);
            assert forall|px: int, py: int| #[trigger] image.in_bounds(px, py) implies image.spec_pixel(
                px,
                py,
            ) == if start_y <= py < y || (py == y && px <= x) {
                part.spec_pixel(px, py)
            } else {
                old(image).spec_pixel(px, py)
            } by {
                assert(prev.in_bounds(px, py));
            }
            x = x + 1;
        }
        y = y + 1;
    }
}

/// Height of each band when `height` rows are split for `count` workers: the
/// whole share `height / count`, and at least one row.
pub open spec fn band_height(height: int, count: int) -> int {
    if height / count >= 1 {
        height / count
    } else {
        1
    }
}

/// Some band of `bands` holds the row `y`.
pub open spec fn band_of_row(bands: Seq<(u32, u32)>, y: int) -> bool {
    exists|k: int| 0 <= k < bands.len() && (#[trigger] bands[k]).0 <= y < bands[k].1
}

/// The contiguous row bands of a banded render: band `k` covers the rows
/// `k * size <= y < min((k + 1) * size, height)` with `size ==
/// band_height(height, count)`, and the bands together cover every row once.
pub fn row_bands(height: u32, count: u32) -> (bands: Vec<(u32, u32)>)
    requires
        count > 0,
    ensures
        forall|k: int|
            0 <= k < bands@.len() ==> (#[trigger] bands@[k]).0 == k * band_height(
                height as int,
                count as int,
            ) && bands@[k].1 == vstd::math::min(
                (k + 1) * band_height(height as int, count as int),
                height as int,
            ),
        bands@.len() == (height + band_height(height as int, count as int) - 1) / band_height(
            height as int,
            count as int,
        ),
        forall|k: int| 0 <= k < bands@.len() ==> (#[trigger] bands@[k]).0 < bands@[k].1 <= height,
        forall|j: int, k: int|
            0 <= j < k < bands@.len() ==> (#[trigger] bands@[j]).1 <= (#[trigger] bands@[k]).0,
        forall|y: int| 0 <= y < height ==> #[trigger] band_of_row(bands@, y),
{
    let size: u32 = if height / count >= 1 {
        height / count
    } else {
        1
    };
    let ghost sz = size as int;
    assert(sz == band_height(height as int, count as int));
    let mut bands: Vec<(u32, u32)> = Vec::new();
    let mut start: u32 = 0;
    let ghost mut k: int = 0;
    while start < height
        invariant
            sz == size >= 1,
            sz == band_height(height as int, count as int),
            k == bands@.len(),
            start == vstd::math::min(k * sz, height as int),
            k == 0 || (k - 1) * sz < height,
            forall|j: int|
                0 <= j < k ==> (#[trigger] bands@[j]).0 == j * sz && bands@[j].1 == vstd::math::min(
                    (j + 1) * sz,
                    height as int,
                ),
        decreases height - start,
    {
        let end: u32 = if (start as u64) + (size as u64) < height as u64 {
            start + size
        } else {
            height
        };
        assert(start == k * sz);
        assert((k + 1) * sz == k * sz + sz) by (nonlinear_arith);
        bands.push((start, end));
        start = end;
        proof {
            k = k + 1;
        }
    }
    proof {
        assert forall|j: int, i: int| 0 <= j < i < bands@.len() implies (#[trigger] bands@[j]).1
            <= (#[trigger] bands@[i]).0 by {
            assert((j + 1) * sz <= i * sz) by (nonlinear_arith)
                requires
                    j + 1 <= i,
                    sz >= 1,
            ;
        }
        assert forall|j: int| 0 <= j < bands@.len() implies (#[trigger] bands@[j]).0 < bands@[j].1
            <= height by {
            assert(j * sz <= (k - 1) * sz) by (nonlinear_arith)
                requires
                    j <= k - 1,
                    sz >= 1,
            ;
            assert(j * sz < (j + 1) * sz) by (nonlinear_arith)
                requires
                    sz >= 1,
            ;
        }
        assert forall|y: int| 0 <= y < height implies #[trigger] band_of_row(bands@, y) by {
            let i = y / sz;
            assert(i * sz <= y < (i + 1) * sz) by (nonlinear_arith)
                requires
                    i == y / sz,
                    sz >= 1,
                    y >= 0,
            ;
            if i >= k {
                assert(k * sz <= i * sz) by (nonlinear_arith)
                    requires
                        k <= i,
                        sz >= 1,
                ;
            }
            assert(0 <= i) by (nonlinear_arith)
                requires
                    i == y / sz,
                    sz >= 1,
                    y >= 0,
            ;
            assert(bands@[i].0 <= y < bands@[i].1);
        }
        let h = height as int;
        if k == 0 {
            assert((h + sz - 1) / sz == 0) by (nonlinear_arith)
                requires
                    h == 0,
                    sz >= 1,
            ;
        } else {
            assert(k * sz >= h) by (nonlinear_arith)
                requires
                    start == vstd::math::min(k * sz, h),
                    start >= h,
            ;
            assert(k == (h + sz - 1) / sz) by (nonlinear_arith)
                requires
                    (k - 1) * sz < h,
                    h <= k * sz,
                    sz >= 1,
                    k >= 1,
            ;
        }
    }
    bands
}

/// One of the first `n` parts of a banded render covers the row `y`.
pub open spec fn part_of_row<T>(parts: Seq<(u32, u32, Canvas<T>)>, n: int, y: int) -> bool {
    exists|k: int| 0 <= k < n && (#[trigger] parts[k]).0 <= y < parts[k].1
}

/// Each part is a well-formed image of the given size with a row range
/// inside it, and no two parts share a row.
pub open spec fn parts_fit<T: Copy>(parts: Seq<(u32, u32, Canvas<T>)>, width: nat, height: nat) -> bool {
    &&& forall|k: int|
        0 <= k < parts.len() ==> {
            &&& (#[trigger] parts[k]).2.wf()
            &&& parts[k].2.spec_width() == width
            &&& parts[k].2.spec_height() == height
            &&& parts[k].0 <= parts[k].1 <= height
        }
    &&& forall|j: int, k: int|
        0 <= j < parts.len() && 0 <= k < parts.len() && j != k ==> (#[trigger] parts[j]).1
            <= (#[trigger] parts[k]).0 || parts[k].1 <= parts[j].0
}

/// Merges the parts of a banded render into `image`: the rows of each part
/// come from that part's image, and rows that no part covers are kept.
pub fn merge_bands<T: Copy>(image: &mut Canvas<T>, parts: &Vec<(u32, u32, Canvas<T>)>)
    requires
        old(image).wf(),
        parts_fit(parts@, old(image).spec_width(), old(image).spec_height()),
    ensures
        final(image).wf(),
        final(image).spec_width() == old(image).spec_width(),
        final(image).spec_height() == old(image).spec_height(),
        forall|k: int, x: int, y: int|
            0 <= k < parts@.len() && final(image).in_bounds(x, y) && parts@[k].0 <= y < parts@[k].1
                ==> #[trigger] final(image).spec_pixel(x, y) == (#[trigger] parts@[k]).2.spec_pixel(x, y),
        forall|x: int, y: int|
            #[trigger] final(image).in_bounds(x, y) && !part_of_row(parts@, parts@.len() as int, y)
                ==> final(image).spec_pixel(x, y) == old(image).spec_pixel(x, y),
{
    let mut k: usize = 0;
    while k < parts.len()
        invariant
            0 <= k <= parts@.len(),
            image.wf(),
            image.spec_width() == old(image).spec_width(),
            image.spec_height() == old(image).spec_height(),
            parts_fit(parts@, old(image).spec_width(), old(image).spec_height()),
            forall|j: int, x: int, y: int|
                0 <= j < k && image.in_bounds(x, y) && parts@[j].0 <= y < parts@[j].1
                    ==> #[trigger] image.spec_pixel(x, y) == (#[trigger] parts@[j]).2.spec_pixel(x, y),
            forall|x: int, y: int|
                #[trigger] image.in_bounds(x, y) && !part_of_row(parts@, k as int, y)
                    ==> image.spec_pixel(x, y) == old(image).spec_pixel(x, y),
        decreases parts@.len() - k,
    {
        let part = &parts[k];
        let ghost prev = *image;
        assert(parts@[k as int] == *part);
        merge_rows(image, &part.2, part.0, part.1);
        proof {
            assert forall|j: int, x: int, y: int|
                0 <= j <= k && image.in_bounds(x, y) && parts@[j].0 <= y < parts@[j].1
                    implies #[trigger] image.spec_pixel(x, y) == (#[trigger] parts@[j]).2.spec_pixel(x, y) by {
                assert(prev.in_bounds(x, y));
            }
            assert forall|x: int, y: int|
                #[trigger] image.in_bounds(x, y) && !part_of_row(parts@, k + 1, y)
                    implies image.spec_pixel(x, y) == old(image).spec_pixel(x, y) by {
                assert(prev.in_bounds(x, y));
                if part_of_row(parts@, k as int, y) {
                    let j = choose|j: int| 0 <= j < k && (#[trigger] parts@[j]).0 <= y < parts@[j].1;
                    assert(part_of_row(parts@, k + 1, y));
                }
                assert(!(parts@[k as int].0 <= y < parts@[k as int].1));
            }
        }
        k = k + 1;
    }
}

/// A banded render equals the serial one: where the parts of a banded render
/// cover every row, each part's rows were rendered with the same
/// deterministic shader as the serial image, and the merged image takes each
/// part's rows, the merged image and the serial image hold the same pixels.
pub proof fn lemma_banded_render_matches_serial<T: Copy, F: Fn(usize, usize) -> T>(
    shade: F,
    parts: Seq<(u32, u32, Canvas<T>)>,
    serial: Canvas<T>,
    banded: Canvas<T>,
)
    requires
        deterministic(shade),
        serial.wf(),
        banded.wf(),
        banded.spec_width() == serial.spec_width(),
        banded.spec_height() == serial.spec_height(),
        rows_shaded(serial, 0, serial.spec_height() as int, shade),
        forall|k: int|
            0 <= k < parts.len() ==> rows_shaded(
                (#[trigger] parts[k]).2,
                parts[k].0 as int,
                parts[k].1 as int,
                shade,
            ) && parts[k].2.spec_width() == serial.spec_width(),
        forall|y: int| 0 <= y < serial.spec_height() ==> #[trigger] part_of_row(parts, parts.len() as int, y),
        forall|k: int, x: int, y: int|
            0 <= k < parts.len() && banded.in_bounds(x, y) && parts[k].0 <= y < parts[k].1
                ==> #[trigger] banded.spec_pixel(x, y) == (#[trigger] parts[k]).2.spec_pixel(x, y),
    ensures
        banded.view() == serial.view(),
{
    let w = serial.spec_width() as int;
    let h = serial.spec_height() as int;
    assert forall|x: int, y: int| #[trigger] serial.in_bounds(x, y) implies banded.spec_pixel(x, y)
        == serial.spec_pixel(x, y) by {
        assert(part_of_row(parts, parts.len() as int, y));
        let k = choose|k: int| 0 <= k < parts.len() && (#[trigger] parts[k]).0 <= y < parts[k].1;
        assert(banded.in_bounds(x, y));
        assert(shade.ensures((x as usize, y as usize), parts[k].2.spec_pixel(x, y)));
        assert(shade.ensures((x as usize, y as usize), serial.spec_pixel(x, y)));
    }
    assert forall|i: int| 0 <= i < serial.view().len() implies banded.view()[i] == serial.view()[i] by {
        let y = i / w;
        let x = i % w;
        assert(0 <= x < w && 0 <= y && i == x + y * w) by (nonlinear_arith)
            requires
                y == i / w,
                x == i % w,
                w > 0,
                i >= 0,
        ;
        assert(y < h) by (nonlinear_arith)
            requires
                i == x + y * w,
                0 <= x,
                i < w * h,
                w > 0,
        ;
        assert(serial.in_bounds(x, y));
    }
    assert(banded.view() =~= serial.view());
}

} // verus!
