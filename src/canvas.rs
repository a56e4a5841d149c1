use vstd::prelude::*;

verus! {

/// A `width` by `height` image whose pixels are stored row by row.
#[derive(Clone, Debug)]
pub struct Canvas<T> {
    width: u32,
    height: u32,
    pixels: Vec<T>,
}

/// Position in the row-major pixel sequence of the pixel at `(x, y)`.
pub open spec fn pixel_offset(width: int, x: int, y: int) -> int {
    x + y * width
}

/// Distinct coordinates inside a `width`-wide image have distinct offsets.
pub proof fn lemma_offset_injective(width: int, x1: int, y1: int, x2: int, y2: int)
    requires
        0 <= x1 < width,
        0 <= x2 < width,
        0 <= y1,
        0 <= y2,
        x1 != x2 || y1 != y2,
    ensures
        pixel_offset(width, x1, y1) != pixel_offset(width, x2, y2),
{
    if y1 < y2 {
        assert(x1 + y1 * width < x2 + y2 * width) by (nonlinear_arith)
            requires
                0 <= x1 < width,
                0 <= x2,
                0 <= y1 < y2,
        ;
    } else if y2 < y1 {
        assert(x2 + y2 * width < x1 + y1 * width) by (nonlinear_arith)
            requires
                0 <= x2 < width,
                0 <= x1,
                0 <= y2 < y1,
        ;
    }
}

/// An in-bounds coordinate has an offset inside the pixel store.
pub proof fn lemma_offset_in_range(width: int, height: int, x: int, y: int)
    requires
        0 <= x < width,
        0 <= y < height,
    ensures
        0 <= pixel_offset(width, x, y) < width * height,
{
    assert(0 <= x + y * width < width * height) by (nonlinear_arith)
        requires
            0 <= x < width,
            0 <= y < height,
    ;
}

impl<T: Copy> Canvas<T> {
    /// The pixel store holds exactly one value per coordinate.
    pub open spec fn wf(&self) -> bool {
        self.view().len() == self.spec_width() * self.spec_height()
    }

    pub closed spec fn spec_width(&self) -> nat {
        self.width as nat
    }

    pub closed spec fn spec_height(&self) -> nat {
        self.height as nat
    }

    /// The pixels, row by row.
    pub closed spec fn view(&self) -> Seq<T> {
        self.pixels@
    }

    /// The pixel at `(x, y)`.
    pub open spec fn spec_pixel(&self, x: int, y: int) -> T {
        self.view()[pixel_offset(self.spec_width() as int, x, y)]
    }

    pub open spec fn in_bounds(&self, x: int, y: int) -> bool {
        0 <= x < self.spec_width() && 0 <= y < self.spec_height()
    }

    /// A canvas of the given size with every pixel set to `color`.
    pub fn of_color(width: u32, height: u32, color: T) -> (c: Self)
        requires
            width as int * height as int <= usize::MAX,
        ensures
            c.wf(),
            c.spec_width() == width,
            c.spec_height() == height,
            forall|i: int| 0 <= i < c.view().len() ==> #[trigger] c.view()[i] == color,
    {
        let n: usize = (width as usize) * (height as usize);
        let mut pixels: Vec<T> = Vec::with_capacity(n);
        let mut i: usize = 0;
        while i < n
            invariant
                i <= n,
                pixels@.len() == i,
                forall|j: int| 0 <= j < i ==> #[trigger] pixels@[j] == color,
            decreases n - i,
        {
            pixels.push(color);
            i = i + 1;
        }
        Canvas { width, height, pixels }
    }

    /// A canvas of the given size with every pixel set to `T`'s default value
    /// (black, for colors).
    pub fn new(width: u32, height: u32) -> (c: Self) where T: Default
        requires
            width as int * height as int <= usize::MAX,
        ensures
            c.wf(),
            c.spec_width() == width,
            c.spec_height() == height,
            forall|i: int| 0 <= i < c.view().len() ==> call_ensures(T::default, (), #[trigger] c.view()[i]),
            forall|i: int, j: int|
                0 <= i < c.view().len() && 0 <= j < c.view().len() ==> #[trigger] c.view()[i] == #[trigger] c.view()[j],
    {
        let background = T::default();
        Self::of_color(width, height, background)
    }

    pub fn width(&self) -> (w: u32)
        ensures
            w == self.spec_width(),
    {
        self.width
    }

    pub fn height(&self) -> (h: u32)
        ensures
            h == self.spec_height(),
    {
        self.height
    }

    /// The pixels, row by row.
    pub fn pixels(&self) -> (p: &Vec<T>)
        ensures
            p@ == self.view(),
    {
        &self.pixels
    }

    /// Index of `(x, y)` in the pixel store.
    fn offset(&self, x: u32, y: u32) -> (i: usize)
        requires
            self.wf(),
            self.in_bounds(x as int, y as int),
        ensures
            i == pixel_offset(self.spec_width() as int, x as int, y as int),
            i < self.view().len(),
    {
        let w = self.width as usize;
        let h = self.height as usize;
        let n = self.pixels.len();
        proof {
            let (xi, yi, wi, hi) = (x as int, y as int, w as int, h as int);
            assert(xi + yi * wi < wi * hi) by (nonlinear_arith)
                requires
                    0 <= xi < wi,
                    0 <= yi < hi,
            ;
            assert(yi * wi <= wi * hi) by (nonlinear_arith)
                requires
                    0 <= xi < wi,
                    0 <= yi < hi,
            ;
        }
        x as usize + (y as usize) * w
    }

    /// Sets the pixel at `(x, y)`; every other pixel is kept.
    pub fn write_pixel(&mut self, x: u32, y: u32, color: T)
        requires
            old(self).wf(),
            old(self).in_bounds(x as int, y as int),
        ensures
            final(self).wf(),
            final(self).spec_width() == old(self).spec_width(),
            final(self).spec_height() == old(self).spec_height(),
            final(self).view() == old(self).view().update(
                pixel_offset(old(self).spec_width() as int, x as int, y as int),
                color,
            ),
            forall|px: int, py: int|
                #[trigger] final(self).in_bounds(px, py) ==> final(self).spec_pixel(px, py) == if px == x
                    && py == y {
                    color
                } else {
                    old(self).spec_pixel(px, py)
                },
    {
        let i = self.offset(x, y);
        self.pixels.set(i, color);
        proof {
            let w = self.spec_width() as int;
            assert forall|px: int, py: int| #[trigger] self.in_bounds(px, py) implies self.spec_pixel(px, py)
                == if px == x && py == y {
                color
            } else {
                old(self).spec_pixel(px, py)
            } by {
                lemma_offset_in_range(w, self.spec_height() as int, px, py);
                if px != x || py != y {
                    lemma_offset_injective(w, px, py, x as int, y as int);
                }
            }
        }
    }

    /// The pixel at `(x, y)`.
    pub fn pixel_at(&self, x: u32, y: u32) -> (c: T)
        requires
            self.wf(),
            self.in_bounds(x as int, y as int),
        ensures
            c == self.spec_pixel(x as int, y as int),
    {
        let i = self.offset(x, y);
        self.pixels[i]
    }
}

} // verus!
