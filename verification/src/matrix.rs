//! Matrices as grids of scalars, and the operations that only move or
//! compare entries.

use vstd::prelude::*;
use crate::scalar::Scalar;

verus! {

/// A matrix, stored row by row. Two matrices are equal when they hold the
/// same bit patterns in the same places.
#[derive(Clone, Debug, PartialEq, Eq)]
pub struct Matrix {
    pub matrix: Vec<Vec<Scalar>>,
}

impl View for Matrix {
    type V = Seq<Seq<Scalar>>;

    /// The rows of the matrix, each as a sequence of entries.
    open spec fn view(&self) -> Seq<Seq<Scalar>> {
        rows_of(self.matrix@)
    }
}

/// The rows held by a vector of vectors.
pub open spec fn rows_of(v: Seq<Vec<Scalar>>) -> Seq<Seq<Scalar>> {
    Seq::new(v.len(), |i: int| v[i]@)
}

/// Every row of `m` has `columns` entries.
pub open spec fn has_columns(m: Seq<Seq<Scalar>>, columns: nat) -> bool {
    forall|i: int| 0 <= i < m.len() ==> (#[trigger] m[i]).len() == columns
}

/// The number of columns of a rectangular grid; zero when it has no rows.
pub open spec fn column_count(m: Seq<Seq<Scalar>>) -> nat {
    if m.len() == 0 {
        0
    } else {
        m[0].len()
    }
}

/// The grids have the same number of rows, and rows of the same lengths.
pub open spec fn same_shape(a: Seq<Seq<Scalar>>, b: Seq<Seq<Scalar>>) -> bool {
    &&& a.len() == b.len()
    &&& forall|i: int| 0 <= i < a.len() ==> (#[trigger] a[i]).len() == b[i].len()
}

/// `i`, `j` is a position of the grid.
pub open spec fn in_grid(m: Seq<Seq<Scalar>>, i: int, j: int) -> bool {
    0 <= i < m.len() && 0 <= j < m[i].len()
}

/// `s` without the element at position `k`; `s` itself when it has no such position.
pub open spec fn without<A>(s: Seq<A>, k: int) -> Seq<A> {
    if 0 <= k < s.len() {
        s.remove(k)
    } else {
        s
    }
}

/// The `size` by `size` grid with ones on the diagonal and zeros elsewhere.
pub open spec fn identity_grid(size: nat) -> Seq<Seq<Scalar>> {
    Seq::new(
        size,
        |i: int|
            Seq::new(
                size,
                |j: int|
                    if i == j {
                        Scalar::one()
                    } else {
                        Scalar::zero()
                    },
            ),
    )
}

/// `m` with row `line` and, in every other row, entry `column` taken out.
pub open spec fn submatrix_grid(m: Seq<Seq<Scalar>>, line: int, column: int) -> Seq<Seq<Scalar>> {
    without(m, line).map_values(|row: Seq<Scalar>| without(row, column))
}

/// The grid whose entry in row `j` and column `i` is entry `i`, `j` of `m`.
pub open spec fn transposed_grid(m: Seq<Seq<Scalar>>) -> Seq<Seq<Scalar>> {
    Seq::new(column_count(m), |j: int| Seq::new(m.len(), |i: int| m[i][j]))
}

impl Matrix {
    /// The matrix with the given rows.
    pub fn init(matrix: Vec<Vec<Scalar>>) -> (m: Matrix)
        ensures
            m.matrix == matrix,
    {
        Matrix { matrix }
    }

    /// The identity matrix of the given size.
    pub fn identity(size: usize) -> (m: Matrix)
        ensures
            m@ == identity_grid(size as nat),
    {
        let mut matrix: Vec<Vec<Scalar>> = Vec::new();
        let mut i: usize = 0;
        while i < size
            invariant
                i <= size,
                matrix@.len() == i,
                forall|k: int| 0 <= k < i ==> (#[trigger] matrix@[k])@ == identity_grid(size as nat)[k],
            decreases size - i,
        {
            let mut row: Vec<Scalar> = Vec::new();
            let mut j: usize = 0;
            while j < size
                invariant
                    j <= size,
                    i < size,
                    row@.len() == j,
                    forall|k: int| 0 <= k < j ==> row@[k] == identity_grid(size as nat)[i as int][k],
                decreases size - j,
            {
                if i == j {
                    row.push(Scalar::one());
                } else {
                    row.push(Scalar::zero());
                }
                j += 1;
            }
            assert(row@ =~= identity_grid(size as nat)[i as int]);
            matrix.push(row);
            i += 1;
        }
        let m = Matrix { matrix };
        assert(m@ =~= identity_grid(size as nat));
        m
    }

    /// The number of rows.
    pub fn rows(&self) -> (n: usize)
        ensures
            n == self@.len(),
    {
        self.matrix.len()
    }

    /// The number of entries in the first row; zero when there is no row.
    pub fn columns(&self) -> (n: usize)
        ensures
            n == column_count(self@),
    {
        if self.matrix.len() == 0 {
            0
        } else {
            self.matrix[0].len()
        }
    }

    /// Whether every row has `columns` entries.
    pub fn has_columns(&self, columns: usize) -> (b: bool)
        ensures
            b == has_columns(self@, columns as nat),
    {
        let mut x: usize = 0;
        while x < self.matrix.len()
            invariant
                x <= self@.len(),
                forall|i: int| 0 <= i < x ==> (#[trigger] self@[i]).len() == columns,
            decreases self@.len() - x,
        {
            if self.matrix[x].len() != columns {
                assert(self@[x as int].len() != columns);
                return false;
            }
            x += 1;
        }
        true
    }

    /// Whether every row has as many entries as the first.
    pub fn is_rectangular(&self) -> (b: bool)
        ensures
            b == has_columns(self@, column_count(self@)),
    {
        self.has_columns(self.columns())
    }

    /// The entry in row `x` and column `y`.
    pub fn at(&self, x: usize, y: usize) -> (entry: Scalar)
        requires
            x < self@.len(),
            y < self@[x as int].len(),
        ensures
            entry == self@[x as int][y as int],
    {
        self.matrix[x][y]
    }

    /// Whether the matrices have the same shape and `close` accepts every
    /// pair of entries that stand in the same place. Pairs are tested row by
    /// row until one is refused.
    pub fn eq_by<F: Fn(Scalar, Scalar) -> bool>(&self, other: &Matrix, close: &F) -> (equal: bool)
        requires
            forall|a: Scalar, b: Scalar| call_requires(*close, (a, b)),
        ensures
            equal ==> same_shape(self@, other@) && forall|i: int, j: int|
                in_grid(self@, i, j) ==> call_ensures(
                    *close,
                    (#[trigger] self@[i][j], other@[i][j]),
                    true,
                ),
            !equal ==> !same_shape(self@, other@) || exists|i: int, j: int|
                in_grid(self@, i, j) && call_ensures(
                    *close,
                    (#[trigger] self@[i][j], other@[i][j]),
                    false,
                ),
    {
        if self.matrix.len() != other.matrix.len() {
            return false;
        }
        let mut x: usize = 0;
        while x < self.matrix.len()
            invariant
                x <= self@.len(),
                self@.len() == other@.len(),
                forall|a: Scalar, b: Scalar| call_requires(*close, (a, b)),
                forall|i: int| 0 <= i < x ==> (#[trigger] self@[i]).len() == other@[i].len(),
                forall|i: int, j: int|
                    0 <= i < x && 0 <= j < self@[i].len() ==> call_ensures(
                        *close,
                        (#[trigger] self@[i][j], other@[i][j]),
                        true,
                    ),
            decreases self@.len() - x,
        {
            let left = &self.matrix[x];
            let right = &other.matrix[x];
            if left.len() != right.len() {
                assert(self@[x as int].len() != other@[x as int].len());
                return false;
            }
            let mut y: usize = 0;
            while y < left.len()
                invariant
                    y <= left@.len(),
                    x < self@.len(),
                    left@ == self@[x as int],
                    right@ == other@[x as int],
                    left@.len() == right@.len(),
                    forall|a: Scalar, b: Scalar| call_requires(*close, (a, b)),
                    forall|j: int|
                        0 <= j < y ==> call_ensures(*close, (#[trigger] left@[j], right@[j]), true),
                decreases left@.len() - y,
            {
                let accepted = close(left[y], right[y]);
                if !accepted {
                    assert(in_grid(self@, x as int, y as int));
                    assert(call_ensures(
                        *close,
                        (self@[x as int][y as int], other@[x as int][y as int]),
                        false,
                    ));
                    return false;
                }
                y += 1;
            }
            x += 1;
        }
        true
    }

    /// The matrix without row `line` and column `column`.
    pub fn submatrix(&self, line: usize, column: usize) -> (m: Matrix)
        ensures
            m@ == submatrix_grid(self@, line as int, column as int),
    {
        let lines = self.matrix.len();
        let mut submatrix: Vec<Vec<Scalar>> = Vec::new();
        let mut x: usize = 0;
        while x < lines
            invariant
                x <= lines,
                lines == self.matrix@.len(),
                rows_of(submatrix@) == submatrix_grid(self@.take(x as int), line as int, column as int),
            decreases lines - x,
        {
            let ghost before = without(self@.take(x as int), line as int);
            let ghost after = without(self@.take(x + 1), line as int);
            let ghost drop_column = |row: Seq<Scalar>| without(row, column as int);
            if x != line {
                let current_line = &self.matrix[x];
                let mut row: Vec<Scalar> = Vec::new();
                let mut y: usize = 0;
                while y < current_line.len()
                    invariant
                        y <= current_line@.len(),
                        row@ == without(current_line@.take(y as int), column as int),
                    decreases current_line@.len() - y,
                {
                    if y != column {
                        row.push(current_line[y]);
                    }
                    assert(row@ =~= without(current_line@.take(y + 1), column as int));
                    y += 1;
                }
                assert(current_line@.take(y as int) =~= current_line@);
                let ghost rows_before = rows_of(submatrix@);
                submatrix.push(row);
                proof {
                    assert(rows_of(submatrix@) =~= rows_before.push(row@));
                    assert(after =~= before.push(self@[x as int]));
                    assert(after.map_values(drop_column) =~= before.map_values(drop_column).push(
                        row@,
                    ));
                }
            } else {
                assert(after =~= before);
            }
            x += 1;
        }
        assert(self@.take(x as int) =~= self@);
        Matrix { matrix: submatrix }
    }

    /// The matrix with rows and columns exchanged.
    pub fn transpose(&self) -> (m: Matrix)
        requires
            has_columns(self@, column_count(self@)),
        ensures
            m@ == transposed_grid(self@),
    {
        let lines = self.matrix.len();
        let columns = if lines == 0 {
            0
        } else {
            self.matrix[0].len()
        };
        let mut matrix: Vec<Vec<Scalar>> = Vec::new();
        let mut y: usize = 0;
        while y < columns
            invariant
                y <= columns,
                lines == self@.len(),
                columns == column_count(self@),
                has_columns(self@, column_count(self@)),
                matrix@.len() == y,
                forall|k: int| 0 <= k < y ==> (#[trigger] matrix@[k])@ == transposed_grid(self@)[k],
            decreases columns - y,
        {
            let mut row: Vec<Scalar> = Vec::new();
            let mut x: usize = 0;
            while x < lines
                invariant
                    x <= lines,
                    y < columns,
                    lines == self@.len(),
                    columns == column_count(self@),
                    has_columns(self@, column_count(self@)),
                    row@.len() == x,
                    forall|k: int| 0 <= k < x ==> row@[k] == self@[k][y as int],
                decreases lines - x,
            {
                assert(self@[x as int].len() == columns);
                row.push(self.matrix[x][y]);
                x += 1;
            }
            assert(row@ =~= transposed_grid(self@)[y as int]);
            matrix.push(row);
            y += 1;
        }
        let m = Matrix { matrix };
        assert(m@ =~= transposed_grid(self@));
        m
    }
}

/// Exchanging rows and columns twice gives the matrix back, if it has a
/// column or no row at all.
pub proof fn lemma_transpose_twice(m: Seq<Seq<Scalar>>)
    requires
        has_columns(m, column_count(m)),
        m.len() == 0 || column_count(m) > 0,
    ensures
        transposed_grid(transposed_grid(m)) == m,
{
    let t = transposed_grid(m);
    let back = transposed_grid(t);
    if m.len() > 0 {
        assert(t.len() == column_count(m));
        assert(t[0].len() == m.len());
        assert(back.len() == m.len());
        assert forall|i: int| 0 <= i < m.len() implies #[trigger] back[i] == m[i] by {
            assert(back[i].len() == t.len());
            assert(m[i].len() == column_count(m));
            assert(back[i] =~= m[i]);
        }
        assert(back =~= m);
    } else {
        assert(back =~= m);
    }
}

/// The identity matrix is its own transpose.
pub proof fn lemma_identity_is_symmetric(size: nat)
    ensures
        transposed_grid(identity_grid(size)) == identity_grid(size),
{
    let id = identity_grid(size);
    let t = transposed_grid(id);
    if size > 0 {
        assert(id[0].len() == size);
    }
    assert(t.len() == size);
    assert forall|i: int| 0 <= i < size implies #[trigger] t[i] == id[i] by {
        assert(t[i] =~= id[i]);
    }
    assert(t =~= id);
}

/// Taking a row and a column out of a grid leaves one row and one column less.
pub proof fn lemma_submatrix_shape(m: Seq<Seq<Scalar>>, columns: nat, line: int, column: int)
    requires
        has_columns(m, columns),
        0 <= line < m.len(),
        0 <= column < columns,
    ensures
        submatrix_grid(m, line, column).len() == m.len() - 1,
        has_columns(submatrix_grid(m, line, column), (columns - 1) as nat),
{
    let sub = submatrix_grid(m, line, column);
    assert forall|i: int| 0 <= i < sub.len() implies (#[trigger] sub[i]).len() == columns - 1 by {
        let source = if i < line {
            i
        } else {
            i + 1
        };
        assert(without(m, line)[i] == m[source]);
        assert(m[source].len() == columns);
    }
}

} // verus!
