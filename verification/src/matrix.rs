use vstd::prelude::*;

use crate::scalar::Scalar;
use crate::tuple::Tuple;

verus! {

/// A general two-dimensional numeric grid, stored row-major: the entry in
/// row `r` and column `c` sits at offset `r * col + c` of `data`.
#[derive(Debug, Clone, PartialEq)]
pub struct Matrix<T> {
    pub row: usize,
    pub col: usize,
    pub data: Vec<T>,
}

/// In a row-major buffer with `cols` columns, an entry of an earlier row
/// sits strictly before the start of row `i`.
proof fn lemma_row_major_bound(i0: int, j0: int, i: int, cols: int)
    requires
        0 <= i0 < i,
        0 <= j0 < cols,
    ensures
        0 <= i0 * cols + j0 < i * cols,
{
    assert(i0 * cols + j0 < i * cols) by (nonlinear_arith)
        requires
            0 <= i0 < i,
            0 <= j0 < cols,
    ;
    assert(0 <= i0 * cols) by (nonlinear_arith)
        requires
            0 <= i0,
            0 <= cols,
    ;
}

/// The sum of the first `n` products `a[r, k] * b[k, c]`, accumulated left
/// to right from the additive identity: the shared-dimension dot product
/// that entry `(r, c)` of a matrix product is made of.
pub open spec fn mul_sum<T: Scalar>(a: Matrix<T>, b: Matrix<T>, r: int, c: int, n: int) -> T
    decreases n,
{
    if n <= 0 {
        T::zero_s()
    } else {
        mul_sum(a, b, r, c, n - 1).add_s(a.entry(r, n - 1).mul_s(b.entry(n - 1, c)))
    }
}

/// A square matrix with the multiplicative identity on the diagonal and the
/// additive identity everywhere else.
pub open spec fn is_identity<T: Scalar>(m: Matrix<T>) -> bool {
    &&& m.wf()
    &&& m.row == m.col
    &&& forall|i: int, j: int|
        0 <= i < m.row && 0 <= j < m.col ==> m.entry(i, j) == (if i == j {
            T::one_s()
        } else {
            T::zero_s()
        })
}

impl<T> Matrix<T> {
    /// The shape invariant: the buffer holds exactly `row * col` entries.
    pub open spec fn wf(self) -> bool {
        self.data@.len() == self.row * self.col
    }

    /// The entry in row `r`, column `c`.
    pub open spec fn entry(self, r: int, c: int) -> T {
        self.data@[r * self.col + c]
    }

    /// Builds a matrix from its dimensions and its row-major entries. A
    /// buffer whose length is not exactly `row * col` is rejected.
    pub fn new(row: usize, col: usize, data: Vec<T>) -> (m: Option<Matrix<T>>)
        ensures
            match m {
                Some(mat) => {
                    &&& data@.len() == row * col
                    &&& mat == (Matrix { row, col, data })
                    &&& mat.wf()
                },
                None => data@.len() != row * col,
            },
    {
        let n = data.len();
        if let Some(want) = row.checked_mul(col) {
            if n == want {
                return Some(Matrix { row, col, data });
            }
        }
        None
    }

    /// Bounds-checked read: the entry at `(row, col)`, or nothing when
    /// either index is outside the matrix.
    pub fn at(&self, row: usize, col: usize) -> (r: Option<&T>)
        requires
            self.wf(),
        ensures
            match r {
                Some(v) => {
                    &&& row < self.row
                    &&& col < self.col
                    &&& *v == self.entry(row as int, col as int)
                },
                None => row >= self.row || col >= self.col,
            },
    {
        if row < self.row && col < self.col {
            // The buffer length is a usize, so the row-major index fits one too.
            let _n = self.data.len();
            proof {
                assert(row * self.col + col < self.row * self.col) by (nonlinear_arith)
                    requires
                        row < self.row,
                        col < self.col,
                ;
            }
            Some(&self.data[row * self.col + col])
        } else {
            None
        }
    }

    /// Bounds-checked write: stores `val` at `(row, col)` and reports
    /// whether the indices were inside the matrix; an out-of-range write
    /// leaves the matrix unchanged.
    pub fn set(&mut self, row: usize, col: usize, val: T) -> (r: Option<()>)
        requires
            old(self).wf(),
        ensures
            final(self).wf(),
            final(self).row == old(self).row,
            final(self).col == old(self).col,
            match r {
                Some(u) => {
                    &&& row < old(self).row
                    &&& col < old(self).col
                    &&& final(self).data@ == old(self).data@.update(
                        row * old(self).col + col,
                        val,
                    )
                },
                None => {
                    &&& (row >= old(self).row || col >= old(self).col)
                    &&& *final(self) == *old(self)
                },
            },
    {
        if row < self.row && col < self.col {
            // The buffer length is a usize, so the row-major index fits one too.
            let _n = self.data.len();
            proof {
                assert(row * self.col + col < self.row * self.col) by (nonlinear_arith)
                    requires
                        row < self.row,
                        col < self.col,
                ;
            }
            self.data[row * self.col + col] = val;
            Some(())
        } else {
            None
        }
    }
}

impl<T: Copy> Matrix<T> {
    /// The builder that replaces a matrix literal: a nested sequence of
    /// rows, all of the same length, becomes a matrix; ragged input is
    /// rejected. An empty sequence builds the empty matrix.
    pub fn from_rows(rows: Vec<Vec<T>>) -> (m: Option<Matrix<T>>)
        ensures
            match m {
                Some(mat) => {
                    &&& mat.wf()
                    &&& mat.row == rows@.len()
                    &&& mat.col == (if rows@.len() == 0 {
                        0
                    } else {
                        rows@[0]@.len()
                    })
                    &&& forall|i: int, j: int|
                        0 <= i < mat.row && 0 <= j < mat.col ==> mat.entry(i, j) == rows@[i]@[j]
                },
                None => exists|i: int|
                    0 <= i < rows@.len() && (#[trigger] rows@[i]@.len()) != rows@[0]@.len(),
            },
    {
        let height = rows.len();
        let width = if height == 0 {
            0
        } else {
            rows[0].len()
        };
        let mut data: Vec<T> = Vec::new();
        let mut i: usize = 0;
        while i < height
            invariant
                i <= height,
                height == rows@.len(),
                width == (if height == 0 {
                    0int
                } else {
                    rows@[0]@.len() as int
                }),
                data@.len() == i * width,
                forall|r: int, c: int|
                    0 <= r < i && 0 <= c < width ==> data@[r * width + c] == rows@[r]@[c],
                forall|r: int| 0 <= r < i ==> rows@[r]@.len() == width,
            decreases height - i,
        {
            let r = &rows[i];
            if r.len() != width {
                return None;
            }
            let mut j: usize = 0;
            while j < width
                invariant
                    j <= width,
                    i < height,
                    height == rows@.len(),
                    rows@[i as int]@.len() == width,
                    data@.len() == i * width + j,
                    forall|r0: int, c: int|
                        0 <= r0 < i && 0 <= c < width ==> data@[r0 * width + c] == rows@[r0]@[c],
                    forall|c: int| 0 <= c < j ==> data@[i * width + c] == rows@[i as int]@[c],
                decreases width - j,
            {
                data.push(rows[i][j]);
                proof {
                    assert forall|r0: int, c: int|
                        0 <= r0 < i && 0 <= c < width implies data@[r0 * width + c]
                        == rows@[r0]@[c] by {
                        lemma_row_major_bound(r0, c, i as int, width as int);
                    };
                }
                j = j + 1;
            }
            proof {
                assert((i + 1) * width == i * width + width) by (nonlinear_arith);
                assert(forall|r0: int, c: int|
                    0 <= r0 < i + 1 && 0 <= c < width ==> data@[r0 * width + c] == rows@[r0]@[c])
                    by {
                    assert(forall|r0: int, c: int|
                        r0 == i && 0 <= c < width ==> data@[r0 * width + c] == rows@[r0]@[c]);
                };
            }
            i = i + 1;
        }
        proof {
            if height > 0 {
                assert(rows@[0]@.len() == width);
            }
        }
        Some(Matrix { row: height, col: width, data })
    }
}

impl<T: Scalar> Matrix<T> {
    /// The matrix product. The shared dimension must agree (the left
    /// matrix's column count equals the right one's row count); mismatched
    /// shapes are rejected. Entry `(i, j)` of the product is the sum over
    /// `k` of `self[i, k] * rhs[k, j]`.
    pub fn mul(self, rhs: Matrix<T>) -> (r: Option<Matrix<T>>)
        requires
            self.wf(),
            rhs.wf(),
        ensures
            match r {
                Some(m) => {
                    &&& self.col == rhs.row
                    &&& m.wf()
                    &&& m.row == self.row
                    &&& m.col == rhs.col
                    &&& forall|i: int, j: int|
                        0 <= i < m.row && 0 <= j < m.col ==> m.entry(i, j) == mul_sum(
                            self,
                            rhs,
                            i,
                            j,
                            self.col as int,
                        )
                },
                None => self.col != rhs.row,
            },
    {
        if self.col != rhs.row {
            return None;
        }
        // Both buffer lengths are usizes, so every row-major index fits one.
        let _lhs_len = self.data.len();
        let _rhs_len = rhs.data.len();
        let mut data: Vec<T> = Vec::new();
        let mut i: usize = 0;
        while i < self.row
            invariant
                i <= self.row,
                self.wf(),
                rhs.wf(),
                self.col == rhs.row,
                self.data@.len() <= usize::MAX,
                rhs.data@.len() <= usize::MAX,
                data@.len() == i * rhs.col,
                forall|i0: int, j0: int|
                    0 <= i0 < i && 0 <= j0 < rhs.col ==> data@[i0 * rhs.col + j0] == mul_sum(
                        self,
                        rhs,
                        i0,
                        j0,
                        self.col as int,
                    ),
            decreases self.row - i,
        {
            let mut j: usize = 0;
            while j < rhs.col
                invariant
                    j <= rhs.col,
                    i < self.row,
                    self.wf(),
                    rhs.wf(),
                    self.col == rhs.row,
                    self.data@.len() <= usize::MAX,
                    rhs.data@.len() <= usize::MAX,
                    data@.len() == i * rhs.col + j,
                    forall|i0: int, j0: int|
                        0 <= i0 < i && 0 <= j0 < rhs.col ==> data@[i0 * rhs.col + j0] == mul_sum(
                            self,
                            rhs,
                            i0,
                            j0,
                            self.col as int,
                        ),
                    forall|j0: int|
                        0 <= j0 < j ==> data@[i * rhs.col + j0] == mul_sum(
                            self,
                            rhs,
                            i as int,
                            j0,
                            self.col as int,
                        ),
                decreases rhs.col - j,
            {
                let mut acc: T = T::zero();
                let mut k: usize = 0;
                while k < self.col
                    invariant
                        k <= self.col,
                        i < self.row,
                        j < rhs.col,
                        self.wf(),
                        rhs.wf(),
                        self.col == rhs.row,
                        self.data@.len() <= usize::MAX,
                        rhs.data@.len() <= usize::MAX,
                        acc == mul_sum(self, rhs, i as int, j as int, k as int),
                    decreases self.col - k,
                {
                    proof {
                        assert(i * self.col + k < self.row * self.col) by (nonlinear_arith)
                            requires
                                i < self.row,
                                k < self.col,
                        ;
                        assert(k * rhs.col + j < rhs.row * rhs.col) by (nonlinear_arith)
                            requires
                                k < rhs.row,
                                j < rhs.col,
                        ;
                    }
                    let a: T = self.data[i * self.col + k];
                    let b: T = rhs.data[k * rhs.col + j];
                    acc = acc.add(a.mul(b));
                    k = k + 1;
                }
                data.push(acc);
                proof {
                    assert forall|i0: int, j0: int|
                        0 <= i0 < i && 0 <= j0 < rhs.col implies data@[i0 * rhs.col + j0]
                        == mul_sum(self, rhs, i0, j0, self.col as int) by {
                        lemma_row_major_bound(i0, j0, i as int, rhs.col as int);
                    };
                }
                j = j + 1;
            }
            proof {
                assert((i + 1) * rhs.col == i * rhs.col + rhs.col) by (nonlinear_arith);
            }
            i = i + 1;
        }
        Some(Matrix { row: self.row, col: rhs.col, data })
    }
    /// The dot product of matrix row `i` with the four components of a
    /// tuple.
    pub open spec fn row_dot(self, i: int, t: Tuple<T>) -> T {
        self.entry(i, 0).mul_s(t.x).add_s(self.entry(i, 1).mul_s(t.y)).add_s(
            self.entry(i, 2).mul_s(t.z),
        ).add_s(self.entry(i, 3).mul_s(t.w))
    }

    /// The homogeneous-transform specialization: applies a 4-by-4 matrix
    /// to a tuple. Each of the first three output components is the dot
    /// product of the matching matrix row with the tuple; the output's `w`
    /// is copied verbatim from the input tuple rather than computed from
    /// the matrix's fourth row, which keeps transformed points points and
    /// transformed vectors vectors under affine transforms. A matrix of
    /// any other shape is rejected.
    pub fn multiply_by_tuple(&self, t: &Tuple<T>) -> (r: Option<Tuple<T>>)
        requires
            self.wf(),
        ensures
            match r {
                Some(u) => {
                    &&& self.row == 4
                    &&& self.col == 4
                    &&& u == (Tuple {
                        x: self.row_dot(0, *t),
                        y: self.row_dot(1, *t),
                        z: self.row_dot(2, *t),
                        w: t.w,
                    })
                },
                None => !(self.row == 4 && self.col == 4),
            },
    {
        if self.row != 4 || self.col != 4 {
            return None;
        }
        let x = self.row_dot_at(0, t);
        let y = self.row_dot_at(1, t);
        let z = self.row_dot_at(2, t);
        Some(Tuple { x, y, z, w: t.w })
    }

    /// One row of the transform: the dot product of row `i` with the
    /// tuple's four components.
    fn row_dot_at(&self, i: usize, t: &Tuple<T>) -> (r: T)
        requires
            self.wf(),
            self.col == 4,
            i < self.row,
        ensures
            r == self.row_dot(i as int, *t),
    {
        // The buffer length is a usize, so the row offsets fit one too.
        let _n = self.data.len();
        proof {
            assert(i * 4 + 4 <= self.row * 4) by (nonlinear_arith)
                requires
                    i < self.row,
            ;
        }
        let base = i * 4;
        self.data[base].mul(t.x).add(self.data[base + 1].mul(t.y)).add(
            self.data[base + 2].mul(t.z),
        ).add(self.data[base + 3].mul(t.w))
    }
}

/// For `0 <= n <= shared dimension`, multiplying into an identity column
/// picks out the lone entry seen so far: the partial sum equals `m[i, j]`
/// once `n` has passed column `j`, and the additive identity before.
proof fn lemma_mul_sum_identity<T: Scalar>(m: Matrix<T>, id: Matrix<T>, i: int, j: int, n: int)
    requires
        m.wf(),
        is_identity(id),
        m.col == id.row,
        0 <= i < m.row,
        0 <= j < id.col,
        0 <= n <= m.col,
    ensures
        mul_sum(m, id, i, j, n) == (if j < n {
            m.entry(i, j)
        } else {
            T::zero_s()
        }),
    decreases n,
{
    if n > 0 {
        lemma_mul_sum_identity(m, id, i, j, n - 1);
        let prev = mul_sum(m, id, i, j, n - 1);
        let a = m.entry(i, n - 1);
        if n - 1 == j {
            T::law_mul_one(a);
            T::law_add_zero(a);
        } else {
            T::law_mul_zero(a);
            T::law_add_zero(prev);
        }
    }
}

/// Multiplying any well-formed matrix by the identity of its column count
/// returns the matrix itself, entry for entry.
pub proof fn lemma_mul_identity<T: Scalar>(m: Matrix<T>, id: Matrix<T>)
    requires
        m.wf(),
        is_identity(id),
        m.col == id.row,
    ensures
        forall|i: int, j: int|
            0 <= i < m.row && 0 <= j < m.col ==> mul_sum(m, id, i, j, m.col as int) == m.entry(
                i,
                j,
            ),
{
    assert forall|i: int, j: int| 0 <= i < m.row && 0 <= j < m.col implies mul_sum(
        m,
        id,
        i,
        j,
        m.col as int,
    ) == m.entry(i, j) by {
        lemma_mul_sum_identity(m, id, i, j, m.col as int);
    };
}

} // verus!
