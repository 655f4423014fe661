//! Products, determinants and inverses of matrices.
//!
//! These operations are sums of products of entries. Which entries meet is
//! decided here; the arithmetic itself is done by functions that the caller
//! hands in:
//!
//! - `dot` takes two lists of one length and gives the sum of the products of
//!   their entries, taken in order;
//! - `det2` takes the entries `a`, `b`, `c`, `d` of a two by two matrix, row
//!   by row, and gives `a * d - b * c`;
//! - `divide` takes two entries and gives their quotient.
//!
//! Nothing is assumed of what these functions return. A contract here says
//! which questions lead to the result, and so holds for every arithmetic.

use vstd::prelude::*;
use crate::matrix::{
    column_count, has_columns, lemma_submatrix_shape, submatrix_grid, transposed_grid, Matrix,
};
use crate::scalar::Scalar;

verus! {

/// `dot` can be asked about every two lists of one length.
pub open spec fn takes_lists<P: Fn(&Vec<Scalar>, &Vec<Scalar>) -> Scalar>(dot: P) -> bool {
    forall|r: Vec<Scalar>, c: Vec<Scalar>| r@.len() == c@.len() ==> call_requires(dot, (&r, &c))
}

/// `det2` can be asked about every four entries.
pub open spec fn takes_four<D: Fn(Scalar, Scalar, Scalar, Scalar) -> Scalar>(det2: D) -> bool {
    forall|a: Scalar, b: Scalar, c: Scalar, d: Scalar| call_requires(det2, (a, b, c, d))
}

/// `divide` can be asked about every two entries.
pub open spec fn takes_two<Q: Fn(Scalar, Scalar) -> Scalar>(divide: Q) -> bool {
    forall|a: Scalar, b: Scalar| call_requires(divide, (a, b))
}

/// `d` is an answer of `dot` for the entries of `row` and those of `column`.
pub open spec fn is_dot<P: Fn(&Vec<Scalar>, &Vec<Scalar>) -> Scalar>(
    dot: P,
    row: Seq<Scalar>,
    column: Seq<Scalar>,
    d: Scalar,
) -> bool {
    exists|r: Vec<Scalar>, c: Vec<Scalar>| r@ == row && c@ == column && call_ensures(dot, (&r, &c), d)
}

/// The grid has as many columns as rows.
pub open spec fn is_square(m: Seq<Seq<Scalar>>) -> bool {
    has_columns(m, m.len())
}

/// The cofactor at `line`, `column` is the minor with its sign changed.
pub open spec fn changes_sign(line: int, column: int) -> bool {
    (line + column) % 2 == 1
}

/// The cofactor that belongs to a minor at `line`, `column`.
pub open spec fn signed(minor: Scalar, line: int, column: int) -> Scalar {
    if changes_sign(line, column) {
        minor.neg()
    } else {
        minor
    }
}

/// `product` is the product of `a` and `b`: it has the rows of `a` and the
/// columns of `b`, and its entry in row `i` and column `j` is an answer of
/// `dot` for row `i` of `a` and column `j` of `b`.
pub open spec fn is_product<P: Fn(&Vec<Scalar>, &Vec<Scalar>) -> Scalar>(
    dot: P,
    a: Seq<Seq<Scalar>>,
    b: Seq<Seq<Scalar>>,
    product: Seq<Seq<Scalar>>,
) -> bool {
    &&& product.len() == a.len()
    &&& has_columns(product, column_count(b))
    &&& forall|i: int, j: int|
        0 <= i < a.len() && 0 <= j < column_count(b) ==> is_dot(
            dot,
            a[i],
            transposed_grid(b)[j],
            #[trigger] product[i][j],
        )
}

/// `d` is the determinant of the square grid `m`. For two rows it is the
/// answer of `det2` for the four entries. For more it is the expansion along
/// the first row: the answer of `dot` for the first row and its cofactors.
pub open spec fn is_determinant<
    D: Fn(Scalar, Scalar, Scalar, Scalar) -> Scalar,
    P: Fn(&Vec<Scalar>, &Vec<Scalar>) -> Scalar,
>(det2: D, dot: P, m: Seq<Seq<Scalar>>, d: Scalar) -> bool
    decreases m.len(), 1nat,
{
    if m.len() == 2 {
        call_ensures(det2, (m[0][0], m[0][1], m[1][0], m[1][1]), d)
    } else if m.len() > 2 {
        exists|cofactors: Seq<Scalar>|
            {
                &&& cofactors.len() == m.len()
                &&& forall|j: int|
                    0 <= j < m.len() ==> is_cofactor(det2, dot, m, 0, j, #[trigger] cofactors[j])
                &&& is_dot(dot, m[0], cofactors, d)
            }
    } else {
        false
    }
}

/// `c` is the cofactor of `m` at `line`, `column`: the minor there, with its
/// sign changed where `line + column` is odd.
pub open spec fn is_cofactor<
    D: Fn(Scalar, Scalar, Scalar, Scalar) -> Scalar,
    P: Fn(&Vec<Scalar>, &Vec<Scalar>) -> Scalar,
>(det2: D, dot: P, m: Seq<Seq<Scalar>>, line: int, column: int, c: Scalar) -> bool
    decreases m.len(), 0nat,
{
    if 0 <= line < m.len() {
        exists|minor: Scalar|
            is_determinant(det2, dot, submatrix_grid(m, line, column), minor) && c == signed(
                minor,
                line,
                column,
            )
    } else {
        false
    }
}

/// `v` is the minor of `m` at `line`, `column`: the determinant of `m`
/// without that row and that column.
pub open spec fn is_minor<
    D: Fn(Scalar, Scalar, Scalar, Scalar) -> Scalar,
    P: Fn(&Vec<Scalar>, &Vec<Scalar>) -> Scalar,
>(det2: D, dot: P, m: Seq<Seq<Scalar>>, line: int, column: int, v: Scalar) -> bool {
    is_determinant(det2, dot, submatrix_grid(m, line, column), v)
}

/// `q` is an answer of `divide` for the cofactor of `m` at `line`, `column`
/// and `determinant`.
pub open spec fn is_scaled_cofactor<
    D: Fn(Scalar, Scalar, Scalar, Scalar) -> Scalar,
    P: Fn(&Vec<Scalar>, &Vec<Scalar>) -> Scalar,
    Q: Fn(Scalar, Scalar) -> Scalar,
>(
    det2: D,
    dot: P,
    divide: Q,
    m: Seq<Seq<Scalar>>,
    line: int,
    column: int,
    determinant: Scalar,
    q: Scalar,
) -> bool {
    exists|c: Scalar| is_cofactor(det2, dot, m, line, column, c) && call_ensures(divide, (c, determinant), q)
}

/// `inverse` is the inverse of `m`: a grid of the same size whose entry in
/// row `y` and column `x` is the cofactor of `m` at `x`, `y`, divided by the
/// determinant of `m`.
pub open spec fn is_inverse<
    D: Fn(Scalar, Scalar, Scalar, Scalar) -> Scalar,
    P: Fn(&Vec<Scalar>, &Vec<Scalar>) -> Scalar,
    Q: Fn(Scalar, Scalar) -> Scalar,
>(det2: D, dot: P, divide: Q, m: Seq<Seq<Scalar>>, inverse: Seq<Seq<Scalar>>) -> bool {
    exists|determinant: Scalar|
        {
            &&& is_determinant(det2, dot, m, determinant)
            &&& inverse.len() == m.len()
            &&& is_square(inverse)
            &&& forall|x: int, y: int|
                0 <= x < m.len() && 0 <= y < m.len() ==> is_scaled_cofactor(
                    det2,
                    dot,
                    divide,
                    m,
                    x,
                    y,
                    determinant,
                    #[trigger] inverse[y][x],
                )
        }
}

/// What it means to be the determinant, spelled out for one grid.
pub proof fn lemma_determinant_unfolds<
    D: Fn(Scalar, Scalar, Scalar, Scalar) -> Scalar,
    P: Fn(&Vec<Scalar>, &Vec<Scalar>) -> Scalar,
>(det2: D, dot: P, m: Seq<Seq<Scalar>>, d: Scalar)
    requires
        is_determinant(det2, dot, m, d),
    ensures
        m.len() >= 2,
        m.len() == 2 ==> call_ensures(det2, (m[0][0], m[0][1], m[1][0], m[1][1]), d),
        m.len() > 2 ==> exists|cofactors: Seq<Scalar>|
            {
                &&& cofactors.len() == m.len()
                &&& forall|j: int|
                    0 <= j < m.len() ==> is_cofactor(det2, dot, m, 0, j, #[trigger] cofactors[j])
                &&& is_dot(dot, m[0], cofactors, d)
            },
{
}

/// What it means to be a cofactor, spelled out for one place of one grid.
pub proof fn lemma_cofactor_unfolds<
    D: Fn(Scalar, Scalar, Scalar, Scalar) -> Scalar,
    P: Fn(&Vec<Scalar>, &Vec<Scalar>) -> Scalar,
>(det2: D, dot: P, m: Seq<Seq<Scalar>>, line: int, column: int, c: Scalar)
    requires
        is_cofactor(det2, dot, m, line, column, c),
    ensures
        0 <= line < m.len(),
        exists|minor: Scalar|
            is_minor(det2, dot, m, line, column, minor) && c == signed(minor, line, column),
{
}

impl Matrix {
    /// Whether the matrix has as many columns as rows.
    pub fn is_square(&self) -> (b: bool)
        ensures
            b == is_square(self@),
    {
        self.has_columns(self.rows())
    }

    /// Whether `self` can be multiplied by `other`: every row of `self` is as
    /// long as `other` has rows, and the rows of `other` are of one length.
    pub fn can_multiply(&self, other: &Matrix) -> (b: bool)
        ensures
            b == (has_columns(self@, other@.len()) && has_columns(other@, column_count(other@))),
    {
        self.has_columns(other.rows()) && other.is_rectangular()
    }

    /// Whether the cofactor at row `line` and column `column` is the minor
    /// with its sign changed: so it is where `line + column` is odd.
    pub fn cofactor_changes_sign(line: usize, column: usize) -> (b: bool)
        ensures
            b == changes_sign(line as int, column as int),
    {
        line % 2 != column % 2
    }

    /// The product of `self` and `other`, rows times columns. Every row of
    /// `self` must be as long as `other` has rows.
    pub fn multiply<P: Fn(&Vec<Scalar>, &Vec<Scalar>) -> Scalar>(&self, other: &Matrix, dot: &P) -> (product: Matrix)
        requires
            has_columns(self@, other@.len()),
            has_columns(other@, column_count(other@)),
            takes_lists(*dot),
        ensures
            is_product(*dot, self@, other@, product@),
    {
        let columns = other.transpose();
        let mut rows: Vec<Vec<Scalar>> = Vec::new();
        let mut x: usize = 0;
        while x < self.matrix.len()
            invariant
                x <= self@.len(),
                columns@ == transposed_grid(other@),
                has_columns(self@, other@.len()),
                has_columns(other@, column_count(other@)),
                takes_lists(*dot),
                rows@.len() == x,
                forall|i: int| 0 <= i < x ==> (#[trigger] rows@[i])@.len() == column_count(other@),
                forall|i: int, j: int|
                    0 <= i < x && 0 <= j < column_count(other@) ==> is_dot(
                        *dot,
                        self@[i],
                        transposed_grid(other@)[j],
                        #[trigger] rows@[i]@[j],
                    ),
            decreases self@.len() - x,
        {
            let mut row: Vec<Scalar> = Vec::new();
            let mut y: usize = 0;
            while y < columns.matrix.len()
                invariant
                    y <= columns@.len(),
                    x < self@.len(),
                    columns@ == transposed_grid(other@),
                    has_columns(self@, other@.len()),
                    has_columns(other@, column_count(other@)),
                    takes_lists(*dot),
                    row@.len() == y,
                    forall|j: int|
                        0 <= j < y ==> is_dot(
                            *dot,
                            self@[x as int],
                            transposed_grid(other@)[j],
                            #[trigger] row@[j],
                        ),
                decreases columns@.len() - y,
            {
                assert(self@[x as int].len() == other@.len());
                assert(columns@[y as int].len() == other@.len());
                let d = dot(&self.matrix[x], &columns.matrix[y]);
                assert(is_dot(*dot, self@[x as int], transposed_grid(other@)[y as int], d));
                row.push(d);
                y += 1;
            }
            rows.push(row);
            x += 1;
        }
        Matrix { matrix: rows }
    }

    /// The determinant of a square matrix of two or more rows, by expansion
    /// along the first row.
    pub fn determinant<
        D: Fn(Scalar, Scalar, Scalar, Scalar) -> Scalar,
        P: Fn(&Vec<Scalar>, &Vec<Scalar>) -> Scalar,
    >(&self, det2: &D, dot: &P) -> (d: Scalar)
        requires
            is_square(self@),
            self@.len() >= 2,
            takes_four(*det2),
            takes_lists(*dot),
        ensures
            is_determinant(*det2, *dot, self@, d),
        decreases self@.len(), 2nat,
    {
        let n = self.matrix.len();
        if n == 2 {
            assert(self@[0].len() == 2);
            assert(self@[1].len() == 2);
            det2(self.matrix[0][0], self.matrix[0][1], self.matrix[1][0], self.matrix[1][1])
        } else {
            let mut cofactors: Vec<Scalar> = Vec::new();
            let mut y: usize = 0;
            while y < n
                invariant
                    y <= n,
                    n == self@.len(),
                    n > 2,
                    is_square(self@),
                    takes_four(*det2),
                    takes_lists(*dot),
                    cofactors@.len() == y,
                    forall|j: int|
                        0 <= j < y ==> is_cofactor(*det2, *dot, self@, 0, j, #[trigger] cofactors@[j]),
                decreases n - y,
            {
                let c = self.cofactor(0, y, det2, dot);
                cofactors.push(c);
                y += 1;
            }
            assert(self@[0].len() == n);
            let d = dot(&self.matrix[0], &cofactors);
            assert(is_dot(*dot, self@[0], cofactors@, d));
            d
        }
    }

    /// The determinant of the matrix without row `line` and column `column`.
    pub fn minor<
        D: Fn(Scalar, Scalar, Scalar, Scalar) -> Scalar,
        P: Fn(&Vec<Scalar>, &Vec<Scalar>) -> Scalar,
    >(&self, line: usize, column: usize, det2: &D, dot: &P) -> (v: Scalar)
        requires
            is_square(self@),
            self@.len() >= 3,
            line < self@.len(),
            column < self@.len(),
            takes_four(*det2),
            takes_lists(*dot),
        ensures
            is_minor(*det2, *dot, self@, line as int, column as int, v),
        decreases self@.len(), 0nat,
    {
        let sub = self.submatrix(line, column);
        proof {
            lemma_submatrix_shape(self@, self@.len(), line as int, column as int);
        }
        sub.determinant(det2, dot)
    }

    /// The minor at `line`, `column`, with its sign changed where
    /// `line + column` is odd.
    pub fn cofactor<
        D: Fn(Scalar, Scalar, Scalar, Scalar) -> Scalar,
        P: Fn(&Vec<Scalar>, &Vec<Scalar>) -> Scalar,
    >(&self, line: usize, column: usize, det2: &D, dot: &P) -> (c: Scalar)
        requires
            is_square(self@),
            self@.len() >= 3,
            line < self@.len(),
            column < self@.len(),
            takes_four(*det2),
            takes_lists(*dot),
        ensures
            is_cofactor(*det2, *dot, self@, line as int, column as int, c),
        decreases self@.len(), 1nat,
    {
        let v = self.minor(line, column, det2, dot);
        let c = if Matrix::cofactor_changes_sign(line, column) {
            v.neg()
        } else {
            v
        };
        assert(c == signed(v, line as int, column as int));
        assert(is_determinant(*det2, *dot, submatrix_grid(self@, line as int, column as int), v));
        c
    }

    /// The inverse of a square matrix of three or more rows: the cofactors,
    /// each divided by the determinant, with rows and columns exchanged.
    /// Where the determinant is zero, the entries are whatever `divide`
    /// makes of a division by zero.
    pub fn inverse<
        D: Fn(Scalar, Scalar, Scalar, Scalar) -> Scalar,
        P: Fn(&Vec<Scalar>, &Vec<Scalar>) -> Scalar,
        Q: Fn(Scalar, Scalar) -> Scalar,
    >(&self, det2: &D, dot: &P, divide: &Q) -> (inverse: Matrix)
        requires
            is_square(self@),
            self@.len() >= 3,
            takes_four(*det2),
            takes_lists(*dot),
            takes_two(*divide),
        ensures
            is_inverse(*det2, *dot, *divide, self@, inverse@),
    {
        let n = self.matrix.len();
        let determinant = self.determinant(det2, dot);
        let mut rows: Vec<Vec<Scalar>> = Vec::new();
        let mut x: usize = 0;
        while x < n
            invariant
                x <= n,
                n == self@.len(),
                n >= 3,
                is_square(self@),
                takes_four(*det2),
                takes_lists(*dot),
                takes_two(*divide),
                rows@.len() == x,
                forall|i: int| 0 <= i < x ==> (#[trigger] rows@[i])@.len() == n,
                forall|i: int, j: int|
                    0 <= i < x && 0 <= j < n ==> is_scaled_cofactor(
                        *det2,
                        *dot,
                        *divide,
                        self@,
                        i,
                        j,
                        determinant,
                        #[trigger] rows@[i]@[j],
                    ),
            decreases n - x,
        {
            let mut row: Vec<Scalar> = Vec::new();
            let mut y: usize = 0;
            while y < n
                invariant
                    y <= n,
                    x < n,
                    n == self@.len(),
                    n >= 3,
                    is_square(self@),
                    takes_four(*det2),
                    takes_lists(*dot),
                    takes_two(*divide),
                    row@.len() == y,
                    forall|j: int|
                        0 <= j < y ==> is_scaled_cofactor(
                            *det2,
                            *dot,
                            *divide,
                            self@,
                            x as int,
                            j,
                            determinant,
                            #[trigger] row@[j],
                        ),
                decreases n - y,
            {
                let c = self.cofactor(x, y, det2, dot);
                let q = divide(c, determinant);
                assert(is_scaled_cofactor(*det2, *dot, *divide, self@, x as int, y as int, determinant, q));
                row.push(q);
                y += 1;
            }
            rows.push(row);
            x += 1;
        }
        let scaled = Matrix { matrix: rows };
        assert(has_columns(scaled@, column_count(scaled@)));
        let inverse = scaled.transpose();
        proof {
            assert(inverse@.len() == n);
            assert forall|x: int, y: int| 0 <= x < n && 0 <= y < n implies is_scaled_cofactor(
                *det2,
                *dot,
                *divide,
                self@,
                x,
                y,
                determinant,
                #[trigger] inverse@[y][x],
            ) by {
                assert(inverse@[y][x] == scaled@[x][y]);
                assert(scaled@[x][y] == rows@[x]@[y]);
            }
        }
        inverse
    }
}

} // verus!
