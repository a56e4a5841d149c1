use vstd::prelude::*;

verus! {

// Layout of the homogeneous-coordinate matrices: entries are stored row by
// row, and the operations here move entries around without computing with
// them, so they hold for any entry type.

/// A column of four entries.
#[derive(Clone, Copy, Debug)]
pub struct Matrix4x1<T> {
    values: [T; 4],
}

/// A 2x2 matrix, stored row by row.
#[derive(Clone, Copy, Debug)]
pub struct Matrix2x2<T> {
    values: [T; 4],
}

/// A 3x3 matrix, stored row by row.
#[derive(Clone, Copy, Debug)]
pub struct Matrix3x3<T> {
    values: [T; 9],
}

/// A 4x4 matrix, stored row by row.
#[derive(Clone, Copy, Debug)]
pub struct Matrix4x4<T> {
    values: [T; 16],
}

/// Where the entry `(i, j)` of a submatrix comes from: rows at or after the
/// removed one shift down by one, and columns likewise.
pub open spec fn skip(i: int, removed: int) -> int {
    if i >= removed {
        i + 1
    } else {
        i
    }
}

/// Whether the cofactor at `(row, col)` is the negated minor: when `row +
/// col` is odd.
pub fn cofactor_negates(row: usize, col: usize) -> (negated: bool)
    requires
        row + col <= usize::MAX,
    ensures
        negated == ((row + col) % 2 == 1),
{
    (row + col) % 2 == 1
}

impl<T: Copy> Matrix4x1<T> {
    pub closed spec fn view(&self) -> Seq<T> {
        self.values@
    }

    pub fn new(values: [T; 4]) -> (m: Self)
        ensures
            m@ == values@,
    {
        Matrix4x1 { values }
    }

    /// The `i`-th entry.
    pub fn get(&self, i: usize) -> (v: T)
        requires
            i < 4,
        ensures
            v == self@[i as int],
    {
        self.values[i]
    }
}

impl<T: Copy> Matrix2x2<T> {
    pub closed spec fn view(&self) -> Seq<T> {
        self.values@
    }

    /// The entry in row `r`, column `c`.
    pub open spec fn entry(&self, r: int, c: int) -> T {
        self@[r * 2 + c]
    }

    pub fn new(values: [T; 4]) -> (m: Self)
        ensures
            m@ == values@,
    {
        Matrix2x2 { values }
    }

    pub fn get(&self, row: usize, col: usize) -> (v: T)
        requires
            row < 2,
            col < 2,
        ensures
            v == self.entry(row as int, col as int),
    {
        self.values[row * 2 + col]
    }

    pub fn set(&mut self, row: usize, col: usize, v: T)
        requires
            row < 2,
            col < 2,
        ensures
            final(self)@ == old(self)@.update(row * 2 + col, v),
            forall|r: int, c: int|
                0 <= r < 2 && 0 <= c < 2 ==> #[trigger] final(self).entry(r, c) == if r == row && c == col {
                    v
                } else {
                    old(self).entry(r, c)
                },
    {
        self.values[row * 2 + col] = v;
    }
}

impl<T: Copy> Matrix3x3<T> {
    pub closed spec fn view(&self) -> Seq<T> {
        self.values@
    }

    /// The entry in row `r`, column `c`.
    pub open spec fn entry(&self, r: int, c: int) -> T {
        self@[r * 3 + c]
    }

    pub fn new(values: [T; 9]) -> (m: Self)
        ensures
            m@ == values@,
    {
        Matrix3x3 { values }
    }

    pub fn get(&self, row: usize, col: usize) -> (v: T)
        requires
            row < 3,
            col < 3,
        ensures
            v == self.entry(row as int, col as int),
    {
        self.values[row * 3 + col]
    }

    pub fn set(&mut self, row: usize, col: usize, v: T)
        requires
            row < 3,
            col < 3,
        ensures
            final(self)@ == old(self)@.update(row * 3 + col, v),
            forall|r: int, c: int|
                0 <= r < 3 && 0 <= c < 3 ==> #[trigger] final(self).entry(r, c) == if r == row && c == col {
                    v
                } else {
                    old(self).entry(r, c)
                },
    {
        self.values[row * 3 + col] = v;
    }

    /// The 2x2 matrix left after removing row `row` and column `col`.
    pub fn submatrix(&self, row: usize, col: usize) -> (sub: Matrix2x2<T>)
        requires
            row < 3,
            col < 3,
        ensures
            forall|i: int, j: int|
                0 <= i < 2 && 0 <= j < 2 ==> #[trigger] sub.entry(i, j) == self.entry(
                    skip(i, row as int),
                    skip(j, col as int),
                ),
    {
        let mut sub = Matrix2x2::new([self.values[0]; 4]);
        let mut i: usize = 0;
        while i < 2
            invariant
                0 <= i <= 2,
                row < 3,
                col < 3,
                sub@.len() == 4,
                forall|a: int, b: int|
                    0 <= a < i && 0 <= b < 2 ==> #[trigger] sub.entry(a, b) == self.entry(
                        skip(a, row as int),
                        skip(b, col as int),
                    ),
            decreases 2 - i,
        {
            let r = if i >= row { i + 1 } else { i };
            let mut j: usize = 0;
            while j < 2
                invariant
                    0 <= i < 2,
                    0 <= j <= 2,
                    row < 3,
                    col < 3,
                    r == skip(i as int, row as int),
                    sub@.len() == 4,
                    forall|a: int, b: int|
                        0 <= a < 2 && 0 <= b < 2 && (a < i || (a == i && b < j)) ==> #[trigger] sub.entry(
                            a,
                            b,
                        ) == self.entry(skip(a, row as int), skip(b, col as int)),
                decreases 2 - j,
            {
                let c = if j >= col { j + 1 } else { j };
                let v = self.get(r, c);
                sub.set(i, j, v);
                j = j + 1;
            }
            i = i + 1;
        }
        sub
    }
}

impl<T: Copy> Matrix4x4<T> {
    pub closed spec fn view(&self) -> Seq<T> {
        self.values@
    }

    /// The entry in row `r`, column `c`.
    pub open spec fn entry(&self, r: int, c: int) -> T {
        self@[r * 4 + c]
    }

    /// A matrix from its sixteen entries, row by row.
    pub fn new(values: [T; 16]) -> (m: Self)
        ensures
            m@ == values@,
    {
        Matrix4x4 { values }
    }

    /// A matrix from its rows.
    pub fn from_2d_array(rows: [[T; 4]; 4]) -> (m: Self)
        ensures
            forall|r: int, c: int| 0 <= r < 4 && 0 <= c < 4 ==> #[trigger] m.entry(r, c) == rows@[r]@[c],
    {
        let m = Matrix4x4 {
            values: [
                rows[0][0],
                rows[0][1],
                rows[0][2],
                rows[0][3],
                rows[1][0],
                rows[1][1],
                rows[1][2],
                rows[1][3],
                rows[2][0],
                rows[2][1],
                rows[2][2],
                rows[2][3],
                rows[3][0],
                rows[3][1],
                rows[3][2],
                rows[3][3],
            ],
        };
        assert forall|r: int, c: int| 0 <= r < 4 && 0 <= c < 4 implies #[trigger] m.entry(r, c)
            == rows@[r]@[c] by {
            assert(0 <= r * 4 + c < 16);
        }
        m
    }

    pub fn get(&self, row: usize, col: usize) -> (v: T)
        requires
            row < 4,
            col < 4,
        ensures
            v == self.entry(row as int, col as int),
    {
        self.values[row * 4 + col]
    }

    pub fn set(&mut self, row: usize, col: usize, v: T)
        requires
            row < 4,
            col < 4,
        ensures
            final(self)@ == old(self)@.update(row * 4 + col, v),
            forall|r: int, c: int|
                0 <= r < 4 && 0 <= c < 4 ==> #[trigger] final(self).entry(r, c) == if r == row && c == col {
                    v
                } else {
                    old(self).entry(r, c)
                },
    {
        self.values[row * 4 + col] = v;
    }

    /// Row `r`.
    pub fn row(&self, r: usize) -> (v: Matrix4x1<T>)
        requires
            r < 4,
        ensures
            forall|i: int| 0 <= i < 4 ==> #[trigger] v@[i] == self.entry(r as int, i),
            v@.len() == 4,
    {
        let base = 4 * r;
        Matrix4x1::new([self.values[base], self.values[base + 1], self.values[base + 2], self.values[base + 3]])
    }

    /// Column `c`.
    pub fn col(&self, c: usize) -> (v: Matrix4x1<T>)
        requires
            c < 4,
        ensures
            forall|i: int| 0 <= i < 4 ==> #[trigger] v@[i] == self.entry(i, c as int),
            v@.len() == 4,
    {
        Matrix4x1::new([self.values[c], self.values[4 + c], self.values[8 + c], self.values[12 + c]])
    }

    /// Rows and columns swapped.
    pub fn transposed(&self) -> (t: Self)
        ensures
            forall|r: int, c: int| 0 <= r < 4 && 0 <= c < 4 ==> #[trigger] t.entry(r, c) == self.entry(c, r),
    {
        let v = &self.values;
        let t = Matrix4x4 {
            values: [
                v[0],
                v[4],
                v[8],
                v[12],
                v[1],
                v[5],
                v[9],
                v[13],
                v[2],
                v[6],
                v[10],
                v[14],
                v[3],
                v[7],
                v[11],
                v[15],
            ],
        };
        assert forall|r: int, c: int| 0 <= r < 4 && 0 <= c < 4 implies #[trigger] t.entry(r, c) == self.entry(
            c,
            r,
        ) by {
            assert(0 <= r * 4 + c < 16);
        }
        t
    }

    /// The 3x3 matrix left after removing row `row` and column `col`.
    pub fn submatrix(&self, row: usize, col: usize) -> (sub: Matrix3x3<T>)
        requires
            row < 4,
            col < 4,
        ensures
            forall|i: int, j: int|
                0 <= i < 3 && 0 <= j < 3 ==> #[trigger] sub.entry(i, j) == self.entry(
                    skip(i, row as int),
                    skip(j, col as int),
                ),
    {
        let mut sub = Matrix3x3::new([self.values[0]; 9]);
        let mut i: usize = 0;
        while i < 3
            invariant
                0 <= i <= 3,
                row < 4,
                col < 4,
                sub@.len() == 9,
                forall|a: int, b: int|
                    0 <= a < i && 0 <= b < 3 ==> #[trigger] sub.entry(a, b) == self.entry(
                        skip(a, row as int),
                        skip(b, col as int),
                    ),
            decreases 3 - i,
        {
            let r = if i >= row { i + 1 } else { i };
            let mut j: usize = 0;
            while j < 3
                invariant
                    0 <= i < 3,
                    0 <= j <= 3,
                    row < 4,
                    col < 4,
                    r == skip(i as int, row as int),
                    sub@.len() == 9,
                    forall|a: int, b: int|
                        0 <= a < 3 && 0 <= b < 3 && (a < i || (a == i && b < j)) ==> #[trigger] sub.entry(
                            a,
                            b,
                        ) == self.entry(skip(a, row as int), skip(b, col as int)),
                decreases 3 - j,
            {
                let c = if j >= col { j + 1 } else { j };
                let v = self.get(r, c);
                sub.set(i, j, v);
                j = j + 1;
            }
            i = i + 1;
        }
        sub
    }
}

} // verus!
