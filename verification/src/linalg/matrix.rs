//! Square matrices over the fixed-point scalar: products, cofactor
//! determinants, inversion, and the affine transform constructors.

use vstd::prelude::*;

use crate::fixed::{Fx, SCALE, fadd, fsub, fmul, fdiv};
use crate::linalg::grid::grid;
use crate::linalg::tuple::Tuple;
use crate::trig::{PI_RAW, pi, spec_sin, spec_cos};
use crate::utils::{feq, equal};
use vstd::pervasive::VecAdditionalExecFns;

verus! {

#[derive(Clone, Debug)]
pub struct Matrix {
    pub rows: usize,
    pub cols: usize,
    pub data: Vec<Vec<Fx>>,
}

broadcast use crate::linalg::grid::lemma_grid_len, crate::linalg::grid::lemma_grid_row_len, crate::linalg::grid::lemma_grid_entry;

/// One row with the entry at `c` removed.
pub open spec fn row_remove(row: Seq<int>, c: int) -> Seq<int> {
    Seq::new((row.len() - 1) as nat, |j: int| row[if j < c { j } else { j + 1 }])
}

/// The minor grid: row `r` and column `c` removed.
pub open spec fn spec_submatrix(m: Seq<Seq<int>>, r: int, c: int) -> Seq<Seq<int>> {
    Seq::new((m.len() - 1) as nat, |i: int| row_remove(m[if i < r { i } else { i + 1 }], c))
}

/// The first `k` terms of the first-row cofactor expansion.
pub open spec fn det_acc(m: Seq<Seq<int>>, n: int, k: int) -> int
    decreases n, k,
{
    if k <= 0 || n <= 1 {
        0
    } else {
        let sign: int = if (k - 1) % 2 == 0 {
            SCALE as int
        } else {
            -(SCALE as int)
        };
        fadd(
            det_acc(m, n, k - 1),
            fmul(fmul(sign, m[0][k - 1]), spec_det(spec_submatrix(m, 0, k - 1), n - 1)),
        )
    }
}

/// The determinant of an `n` by `n` grid, by first-row cofactor
/// expansion in fixed-point arithmetic.
pub open spec fn spec_det(m: Seq<Seq<int>>, n: int) -> int
    decreases n, n + 1,
{
    if n <= 1 {
        m[0][0]
    } else if n == 2 {
        fsub(fmul(m[0][0], m[1][1]), fmul(m[1][0], m[0][1]))
    } else {
        det_acc(m, n, n)
    }
}

/// The signed minor determinant at `(r, c)`.
pub open spec fn spec_cofactor(m: Seq<Seq<int>>, n: int, r: int, c: int) -> int {
    let sign: int = if (r + c) % 2 == 0 {
        SCALE as int
    } else {
        -(SCALE as int)
    };
    fmul(sign, spec_det(spec_submatrix(m, r, c), n - 1))
}

/// The first `k` terms of a row-by-column product cell.
pub open spec fn cell_acc(a: Seq<Seq<int>>, b: Seq<Seq<int>>, i: int, j: int, k: int) -> int
    decreases k,
{
    if k <= 0 {
        0
    } else {
        fadd(cell_acc(a, b, i, j, k - 1), fmul(a[i][k - 1], b[k - 1][j]))
    }
}

/// One row of a grid against a homogeneous tuple, accumulated left to
/// right.
pub open spec fn row_dot(row: Seq<int>, t: (int, int, int, int)) -> int {
    fadd(
        fadd(fadd(fmul(row[0], t.0), fmul(row[1], t.1)), fmul(row[2], t.2)),
        fmul(row[3], t.3),
    )
}

/// A grid of at most four rows applied to a homogeneous tuple;
/// missing rows leave zero components.
pub open spec fn mat_tuple(m: Seq<Seq<int>>, t: (int, int, int, int), rows: int) -> (
    int,
    int,
    int,
    int,
) {
    (
        if rows >= 1 {
            row_dot(m[0], t)
        } else {
            0
        },
        if rows >= 2 {
            row_dot(m[1], t)
        } else {
            0
        },
        if rows >= 3 {
            row_dot(m[2], t)
        } else {
            0
        },
        if rows >= 4 {
            row_dot(m[3], t)
        } else {
            0
        },
    )
}

pub open spec fn spec_translation(x: int, y: int, z: int) -> Seq<Seq<int>> {
    seq![
        seq![SCALE as int, 0int, 0int, x],
        seq![0int, SCALE as int, 0int, y],
        seq![0int, 0int, SCALE as int, z],
        seq![0int, 0int, 0int, SCALE as int],
    ]
}

pub open spec fn spec_scaling(x: int, y: int, z: int) -> Seq<Seq<int>> {
    seq![
        seq![x, 0int, 0int, 0int],
        seq![0int, y, 0int, 0int],
        seq![0int, 0int, z, 0int],
        seq![0int, 0int, 0int, SCALE as int],
    ]
}

/// Degrees to radians, in raw units.
pub open spec fn spec_radians(deg: int) -> int {
    fdiv(fmul(deg, PI_RAW as int), 180 * (SCALE as int))
}

pub open spec fn spec_rotation_x(deg: int) -> Seq<Seq<int>> {
    let c = spec_cos(spec_radians(deg));
    let s = spec_sin(spec_radians(deg));
    seq![
        seq![SCALE as int, 0int, 0int, 0int],
        seq![0int, c, crate::fixed::fneg(s), 0int],
        seq![0int, s, c, 0int],
        seq![0int, 0int, 0int, SCALE as int],
    ]
}

pub open spec fn spec_rotation_y(deg: int) -> Seq<Seq<int>> {
    let c = spec_cos(spec_radians(deg));
    let s = spec_sin(spec_radians(deg));
    seq![
        seq![c, 0int, s, 0int],
        seq![0int, SCALE as int, 0int, 0int],
        seq![crate::fixed::fneg(s), 0int, c, 0int],
        seq![0int, 0int, 0int, SCALE as int],
    ]
}

pub open spec fn spec_rotation_z(deg: int) -> Seq<Seq<int>> {
    let c = spec_cos(spec_radians(deg));
    let s = spec_sin(spec_radians(deg));
    seq![
        seq![c, crate::fixed::fneg(s), 0int, 0int],
        seq![s, c, 0int, 0int],
        seq![0int, 0int, SCALE as int, 0int],
        seq![0int, 0int, 0int, SCALE as int],
    ]
}

pub open spec fn spec_shearing(xy: int, xz: int, yx: int, yz: int, zx: int, zy: int) -> Seq<
    Seq<int>,
> {
    seq![
        seq![SCALE as int, xy, xz, 0int],
        seq![yx, SCALE as int, yz, 0int],
        seq![zx, zy, SCALE as int, 0int],
        seq![0int, 0int, 0int, SCALE as int],
    ]
}

/// A well-formed four-by-four matrix, the shape every transform has.
pub open spec fn mat4_wf(m: Matrix) -> bool {
    m.wf() && m.rows == 4 && m.cols == 4
}

/// The grid of the four-by-four identity.
pub open spec fn spec_identity4() -> Seq<Seq<int>> {
    seq![
        seq![SCALE as int, 0int, 0int, 0int],
        seq![0int, SCALE as int, 0int, 0int],
        seq![0int, 0int, SCALE as int, 0int],
        seq![0int, 0int, 0int, SCALE as int],
    ]
}

/// The grid of the inverse of a four-by-four grid, as `invert`
/// computes it.
pub open spec fn spec_inv4(m: Seq<Seq<int>>) -> Seq<Seq<int>> {
    Seq::new(4, |p: int| Seq::new(4, |q: int| fdiv(spec_cofactor(m, 4, q, p), spec_det(m, 4))))
}

/// The transpose of a four-by-four grid.
pub open spec fn spec_transpose4(m: Seq<Seq<int>>) -> Seq<Seq<int>> {
    Seq::new(4, |p: int| Seq::new(4, |q: int| m[q][p]))
}

/// A well-formed matrix's grid has its declared shape.
pub proof fn lemma_m_shape(m: Matrix)
    requires
        m.wf(),
    ensures
        m.m().len() == m.rows,
        forall|i: int| 0 <= i < m.rows ==> (#[trigger] m.m()[i]).len() == m.cols,
{
}

/// What `invert` returns on a four-by-four matrix, read as one grid
/// equation.
pub proof fn lemma_invert_gives_inv4(src: Matrix, inv: Matrix)
    requires
        mat4_wf(src),
        mat4_wf(inv),
        forall|p: int, q: int|
            0 <= p < 4 && 0 <= q < 4 ==> inv.at(p, q) == fdiv(
                spec_cofactor(src.m(), 4, q, p),
                spec_det(src.m(), 4),
            ),
    ensures
        inv.m() == spec_inv4(src.m()),
{
    lemma_m_shape(src);
    lemma_m_shape(inv);
    assert forall|p: int, q: int| 0 <= p < 4 && 0 <= q < 4 implies inv.m()[p][q] == spec_inv4(
        src.m(),
    )[p][q] by {
        assert(inv.at(p, q) == fdiv(spec_cofactor(src.m(), 4, q, p), spec_det(src.m(), 4)));
    }
    assert(inv.m() =~~= spec_inv4(src.m()));
}

/// What `transpose` returns on a four-by-four matrix, read as one
/// grid equation.
pub proof fn lemma_transpose_gives_transpose4(src: Matrix, t: Matrix)
    requires
        mat4_wf(src),
        mat4_wf(t),
        forall|i: int, j: int| 0 <= i < 4 && 0 <= j < 4 ==> t.at(j, i) == src.at(i, j),
    ensures
        t.m() == spec_transpose4(src.m()),
{
    lemma_m_shape(src);
    lemma_m_shape(t);
    assert forall|p: int, q: int| 0 <= p < 4 && 0 <= q < 4 implies t.m()[p][q] == spec_transpose4(
        src.m(),
    )[p][q] by {
        assert(t.at(p, q) == src.at(q, p));
    }
    assert(t.m() =~~= spec_transpose4(src.m()));
}

/// What `identity` returns at size four, read as one grid equation.
pub proof fn lemma_identity_gives_identity4(m: Matrix)
    requires
        mat4_wf(m),
        forall|i: int, j: int|
            0 <= i < 4 && 0 <= j < 4 ==> m.at(i, j) == if i == j {
                SCALE as int
            } else {
                0int
            },
    ensures
        m.m() == spec_identity4(),
{
    lemma_m_shape(m);
    assert forall|p: int, q: int| 0 <= p < 4 && 0 <= q < 4 implies m.m()[p][q] == spec_identity4()[p][q] by {
        assert(m.at(p, q) == if p == q { SCALE as int } else { 0int });
    }
    assert(m.m() =~~= spec_identity4());
}

/// The product of two four-by-four grids, cell by cell.
pub open spec fn mat_mul4(a: Seq<Seq<int>>, b: Seq<Seq<int>>) -> Seq<Seq<int>> {
    Seq::new(4, |i: int| Seq::new(4, |j: int| cell_acc(a, b, i, j, 4)))
}

/// What `multiply_matrix` returns on four-by-four operands, read as
/// one grid equation.
pub proof fn lemma_mul_gives_mat_mul4(a: Matrix, b: Matrix, c: Matrix)
    requires
        mat4_wf(a),
        mat4_wf(b),
        mat4_wf(c),
        forall|i: int, j: int|
            0 <= i < 4 && 0 <= j < 4 ==> c.at(i, j) == cell_acc(a.m(), b.m(), i, j, 4),
    ensures
        c.m() == mat_mul4(a.m(), b.m()),
{
    lemma_m_shape(a);
    lemma_m_shape(b);
    lemma_m_shape(c);
    assert forall|i: int, j: int| 0 <= i < 4 && 0 <= j < 4 implies c.m()[i][j] == mat_mul4(
        a.m(),
        b.m(),
    )[i][j] by {
        assert(c.at(i, j) == cell_acc(a.m(), b.m(), i, j, 4));
    }
    assert(c.m() =~~= mat_mul4(a.m(), b.m()));
}

/// Grids are equal when shapes match and every entry agrees up to the
/// shared tolerance.
pub open spec fn meq(a: Seq<Seq<int>>, b: Seq<Seq<int>>) -> bool {
    &&& a.len() == b.len()
    &&& forall|i: int| 0 <= i < a.len() ==> #[trigger] a[i].len() == b[i].len()
    &&& forall|i: int, j: int|
        0 <= i < a.len() && 0 <= j < a[i].len() ==> feq(#[trigger] a[i][j], b[i][j])
}

/// A fixed-size row of four scalars.
fn row4(a: Fx, b: Fx, c: Fx, d: Fx) -> (r: Vec<Fx>)
    ensures
        r@.len() == 4,
        r@[0] == a,
        r@[1] == b,
        r@[2] == c,
        r@[3] == d,
{
    let mut r: Vec<Fx> = Vec::new();
    r.push(a);
    r.push(b);
    r.push(c);
    r.push(d);
    r
}

impl Matrix {
    /// The raw entries, as mathematical integers, for specifications.
    pub open spec fn m(self) -> Seq<Seq<int>> {
        grid(self.data@)
    }

    /// The declared shape matches the stored data.
    pub open spec fn wf(self) -> bool {
        &&& self.rows == self.data@.len()
        &&& forall|i: int|
            0 <= i < self.data@.len() ==> (#[trigger] self.data@[i])@.len() == self.cols
    }

    /// The entry at `(i, j)`, for specifications.
    pub open spec fn at(self, i: int, j: int) -> int {
        self.m()[i][j]
    }

    /// The all-zero matrix of the given shape.
    pub fn new(rows: usize, cols: usize) -> (r: Matrix)
        ensures
            r.rows == rows,
            r.cols == cols,
            r.wf(),
            forall|i: int, j: int| 0 <= i < rows && 0 <= j < cols ==> r.at(i, j) == 0,
    {
        let mut data: Vec<Vec<Fx>> = Vec::new();
        let mut i: usize = 0;
        while i < rows
            invariant
                i <= rows,
                data@.len() == i,
                forall|p: int| 0 <= p < i ==> (#[trigger] data@[p])@.len() == cols,
                forall|p: int, q: int|
                    0 <= p < i && 0 <= q < cols ==> (#[trigger] data@[p]@[q]).raw == 0,
            decreases rows - i,
        {
            let mut row: Vec<Fx> = Vec::new();
            let mut j: usize = 0;
            while j < cols
                invariant
                    j <= cols,
                    row@.len() == j,
                    forall|q: int| 0 <= q < j ==> (#[trigger] row@[q]).raw == 0,
                decreases cols - j,
            {
                row.push(Fx::zero());
                j = j + 1;
            }
            data.push(row);
            i = i + 1;
        }
        Matrix { rows, cols, data }
    }

    /// A matrix of uniformly random entries between the two bounds.
    pub fn random(rows: usize, cols: usize, min_val: Fx, max_val: Fx) -> (r: Matrix)
        ensures
            r.rows == rows,
            r.cols == cols,
            r.wf(),
    {
        let range = max_val.minus(min_val);
        let mut data: Vec<Vec<Fx>> = Vec::new();
        let mut i: usize = 0;
        while i < rows
            invariant
                i <= rows,
                data@.len() == i,
                forall|p: int| 0 <= p < i ==> (#[trigger] data@[p])@.len() == cols,
            decreases rows - i,
        {
            let mut row: Vec<Fx> = Vec::new();
            let mut j: usize = 0;
            while j < cols
                invariant
                    j <= cols,
                    row@.len() == j,
                decreases cols - j,
            {
                let frac = Fx { raw: random_u32() as i64 };
                row.push(min_val.plus(range.times(frac)));
                j = j + 1;
            }
            data.push(row);
            i = i + 1;
        }
        Matrix { rows, cols, data }
    }

    /// A matrix holding copies of the given rows.
    pub fn from_values(values: &Vec<Vec<Fx>>) -> (r: Matrix)
        requires
            values@.len() > 0,
            forall|i: int|
                0 <= i < values@.len() ==> (#[trigger] values@[i])@.len() == values@[0]@.len(),
        ensures
            r.rows == values@.len(),
            r.cols == values@[0]@.len(),
            r.wf(),
            r.m() == grid(values@),
    {
        let cols = values[0].len();
        let mut data: Vec<Vec<Fx>> = Vec::new();
        let mut i: usize = 0;
        while i < values.len()
            invariant
                i <= values@.len(),
                forall|p: int|
                    0 <= p < values@.len() ==> (#[trigger] values@[p])@.len() == values@[0]@.len(),
                cols == values@[0]@.len(),
                data@.len() == i,
                forall|p: int| 0 <= p < i ==> (#[trigger] data@[p])@ == values@[p]@,
            decreases values@.len() - i,
        {
            let src = &values[i];
            let mut row: Vec<Fx> = Vec::new();
            let mut j: usize = 0;
            while j < src.len()
                invariant
                    j <= src@.len(),
                    row@.len() == j,
                    forall|q: int| 0 <= q < j ==> #[trigger] row@[q] == src@[q],
                decreases src@.len() - j,
            {
                row.push(src[j]);
                j = j + 1;
            }
            proof {
                assert(row@ =~= src@);
            }
            data.push(row);
            i = i + 1;
        }
        let r = Matrix { rows: values.len(), cols, data };
        proof {
            assert(r.m() =~~= grid(values@));
        }
        r
    }

    /// The identity matrix of size `n`.
    pub fn identity(n: usize) -> (r: Matrix)
        ensures
            r.rows == n,
            r.cols == n,
            r.wf(),
            forall|i: int, j: int|
                0 <= i < n && 0 <= j < n ==> r.at(i, j) == if i == j {
                    SCALE as int
                } else {
                    0int
                },
    {
        let mut data: Vec<Vec<Fx>> = Vec::new();
        let mut i: usize = 0;
        while i < n
            invariant
                i <= n,
                data@.len() == i,
                forall|p: int| 0 <= p < i ==> (#[trigger] data@[p])@.len() == n,
                forall|p: int, q: int|
                    0 <= p < i && 0 <= q < n ==> (#[trigger] data@[p]@[q]).raw == if p == q {
                        SCALE as int
                    } else {
                        0int
                    },
            decreases n - i,
        {
            let mut row: Vec<Fx> = Vec::new();
            let mut j: usize = 0;
            while j < n
                invariant
                    i < n,
                    j <= n,
                    row@.len() == j,
                    forall|q: int|
                        0 <= q < j ==> (#[trigger] row@[q]).raw == if i == q {
                            SCALE as int
                        } else {
                            0int
                        },
                decreases n - j,
            {
                if i == j {
                    row.push(Fx::one());
                } else {
                    row.push(Fx::zero());
                }
                j = j + 1;
            }
            data.push(row);
            i = i + 1;
        }
        Matrix { rows: n, cols: n, data }
    }

    /// The transpose.
    pub fn transpose(&self) -> (r: Matrix)
        requires
            self.wf(),
        ensures
            r.rows == self.cols,
            r.cols == self.rows,
            r.wf(),
            forall|i: int, j: int|
                0 <= i < self.rows && 0 <= j < self.cols ==> r.at(j, i) == self.at(i, j),
    {
        let mut data: Vec<Vec<Fx>> = Vec::new();
        let mut p: usize = 0;
        while p < self.cols
            invariant
                p <= self.cols,
                self.wf(),
                data@.len() == p,
                forall|a: int| 0 <= a < p ==> (#[trigger] data@[a])@.len() == self.rows,
                forall|a: int, b: int|
                    0 <= a < p && 0 <= b < self.rows ==> #[trigger] data@[a]@[b]
                        == self.data@[b]@[a],
            decreases self.cols - p,
        {
            let mut row: Vec<Fx> = Vec::new();
            let mut q: usize = 0;
            while q < self.rows
                invariant
                    p < self.cols,
                    q <= self.rows,
                    self.wf(),
                    row@.len() == q,
                    forall|b: int| 0 <= b < q ==> #[trigger] row@[b] == self.data@[b]@[p as int],
                decreases self.rows - q,
            {
                row.push(self.data[q][p]);
                q = q + 1;
            }
            data.push(row);
            p = p + 1;
        }
        Matrix { rows: self.cols, cols: self.rows, data }
    }

    /// The matrix product, cell by cell in row-major accumulation
    /// order.
    pub fn multiply_matrix(&self, other: &Matrix) -> (r: Matrix)
        requires
            self.wf(),
            other.wf(),
            self.cols == other.rows,
        ensures
            r.rows == self.rows,
            r.cols == other.cols,
            r.wf(),
            forall|i: int, j: int|
                0 <= i < self.rows && 0 <= j < other.cols ==> r.at(i, j) == cell_acc(
                    self.m(),
                    other.m(),
                    i,
                    j,
                    self.cols as int,
                ),
    {
        let mut data: Vec<Vec<Fx>> = Vec::new();
        let mut i: usize = 0;
        while i < self.rows
            invariant
                i <= self.rows,
                self.wf(),
                other.wf(),
                self.cols == other.rows,
                data@.len() == i,
                forall|p: int| 0 <= p < i ==> (#[trigger] data@[p])@.len() == other.cols,
                forall|p: int, q: int|
                    0 <= p < i && 0 <= q < other.cols ==> (#[trigger] data@[p]@[q]).raw as int
                        == cell_acc(self.m(), other.m(), p, q, self.cols as int),
            decreases self.rows - i,
        {
            let mut row: Vec<Fx> = Vec::new();
            let mut j: usize = 0;
            while j < other.cols
                invariant
                    i < self.rows,
                    j <= other.cols,
                    self.wf(),
                    other.wf(),
                    self.cols == other.rows,
                    row@.len() == j,
                    forall|q: int|
                        0 <= q < j ==> (#[trigger] row@[q]).raw as int == cell_acc(
                            self.m(),
                            other.m(),
                            i as int,
                            q,
                            self.cols as int,
                        ),
                decreases other.cols - j,
            {
                let mut acc = Fx::zero();
                let mut k: usize = 0;
                while k < self.cols
                    invariant
                        i < self.rows,
                        j < other.cols,
                        k <= self.cols,
                        self.wf(),
                        other.wf(),
                        self.cols == other.rows,
                        acc.raw as int == cell_acc(
                            self.m(),
                            other.m(),
                            i as int,
                            j as int,
                            k as int,
                        ),
                    decreases self.cols - k,
                {
                    acc = acc.plus(self.data[i][k].times(other.data[k][j]));
                    k = k + 1;
                }
                row.push(acc);
                j = j + 1;
            }
            data.push(row);
            i = i + 1;
        }
        Matrix { rows: self.rows, cols: other.cols, data }
    }

    /// Apply the matrix to a homogeneous tuple; rows beyond the fourth
    /// would not fit a tuple, so at most four are allowed.
    pub fn multiply_tuple(&self, other: &Tuple) -> (t: Tuple)
        requires
            self.wf(),
            self.cols == 4,
            self.rows <= 4,
        ensures
            t.m() == mat_tuple(self.m(), other.m(), self.rows as int),
    {
        let x = if self.rows >= 1 {
            row_dot_exec(&self.data[0], other)
        } else {
            Fx::zero()
        };
        let y = if self.rows >= 2 {
            row_dot_exec(&self.data[1], other)
        } else {
            Fx::zero()
        };
        let z = if self.rows >= 3 {
            row_dot_exec(&self.data[2], other)
        } else {
            Fx::zero()
        };
        let w = if self.rows >= 4 {
            row_dot_exec(&self.data[3], other)
        } else {
            Fx::zero()
        };
        Tuple::new(x, y, z, w)
    }

    /// The minor matrix: one row and one column removed.
    pub fn submatrix(&self, row: usize, column: usize) -> (r: Matrix)
        requires
            self.wf(),
            row < self.rows,
            column < self.cols,
        ensures
            r.rows == self.rows - 1,
            r.cols == self.cols - 1,
            r.wf(),
            r.m() == spec_submatrix(self.m(), row as int, column as int),
    {
        let mut data: Vec<Vec<Fx>> = Vec::new();
        let mut i: usize = 0;
        while i < self.rows
            invariant
                i <= self.rows,
                self.wf(),
                row < self.rows,
                column < self.cols,
                data@.len() == if i <= row {
                    i as int
                } else {
                    i - 1
                },
                forall|p: int| 0 <= p < data@.len() ==> (#[trigger] data@[p])@.len() == self.cols
                    - 1,
                forall|p: int, q: int|
                    0 <= p < data@.len() && 0 <= q < self.cols - 1 ==> #[trigger] data@[p]@[q]
                        == self.data@[if p < row {
                        p
                    } else {
                        p + 1
                    }]@[if q < column {
                        q
                    } else {
                        q + 1
                    }],
            decreases self.rows - i,
        {
            if i != row {
                let src = &self.data[i];
                let mut rowvec: Vec<Fx> = Vec::new();
                let mut j: usize = 0;
                while j < self.cols
                    invariant
                        i < self.rows,
                        j <= self.cols,
                        self.wf(),
                        row < self.rows,
                        column < self.cols,
                        src == &self.data@[i as int],
                        rowvec@.len() == if j <= column {
                            j as int
                        } else {
                            j - 1
                        },
                        forall|q: int|
                            0 <= q < rowvec@.len() ==> #[trigger] rowvec@[q]
                                == self.data@[i as int]@[if q < column {
                                q
                            } else {
                                q + 1
                            }],
                    decreases self.cols - j,
                {
                    if j != column {
                        rowvec.push(src[j]);
                    }
                    j = j + 1;
                }
                data.push(rowvec);
            }
            i = i + 1;
        }
        let r = Matrix { rows: self.rows - 1, cols: self.cols - 1, data };
        proof {
            assert forall|p: int, q: int|
                0 <= p < r.m().len() && 0 <= q < r.m()[p].len() implies #[trigger] r.m()[p][q]
                == spec_submatrix(self.m(), row as int, column as int)[p][q] by {
                assert(r.m()[p][q] == (data@[p]@[q]).raw as int);
            }
            assert(r.m() =~~= spec_submatrix(self.m(), row as int, column as int));
        }
        r
    }

    /// The determinant, by first-row cofactor expansion.
    pub fn determinant(&self) -> (r: Fx)
        requires
            self.wf(),
            self.rows == self.cols,
            self.rows >= 1,
        ensures
            r.raw as int == spec_det(self.m(), self.rows as int),
        decreases self.rows,
    {
        let n = self.rows;
        if n == 1 {
            self.data[0][0]
        } else if n == 2 {
            self.data[0][0].times(self.data[1][1]).minus(self.data[1][0].times(self.data[0][1]))
        } else {
            let mut result = Fx::zero();
            let mut i: usize = 0;
            while i < n
                invariant
                    i <= n,
                    self.wf(),
                    self.rows == self.cols,
                    n == self.rows,
                    n >= 3,
                    result.raw as int == det_acc(self.m(), n as int, i as int),
                decreases n - i,
            {
                let sign = if i % 2 == 0 {
                    Fx::one()
                } else {
                    Fx::one().neg()
                };
                let sub = self.submatrix(0, i);
                let d = sub.determinant();
                result = result.plus(sign.times(self.data[0][i]).times(d));
                i = i + 1;
            }
            result
        }
    }

    /// The signed minor determinant at `(row, column)`.
    pub fn cofactor(&self, row: usize, column: usize) -> (r: Fx)
        requires
            self.wf(),
            self.rows == self.cols,
            self.rows >= 2,
            row < self.rows,
            column < self.cols,
        ensures
            r.raw as int == spec_cofactor(
                self.m(),
                self.rows as int,
                row as int,
                column as int,
            ),
    {
        let parity = (row % 2 + column % 2) % 2;
        proof {
            assert((row as int % 2 + column as int % 2) % 2 == (row + column) % 2)
                by (nonlinear_arith)
                requires
                    row >= 0,
                    column >= 0,
            ;
        }
        let sign = if parity == 0 {
            Fx::one()
        } else {
            Fx::one().neg()
        };
        sign.times(self.submatrix(row, column).determinant())
    }

    /// Whether the determinant is nonzero up to the shared tolerance.
    pub fn is_invertible(&self) -> (r: bool)
        requires
            self.wf(),
            self.rows == self.cols,
            self.rows >= 1,
        ensures
            r == !feq(spec_det(self.m(), self.rows as int), 0),
    {
        !equal(self.determinant(), Fx::zero())
    }

    /// The inverse, as the transposed cofactor matrix over the
    /// determinant; the determinant must be nonzero up to the shared
    /// tolerance.
    pub fn invert(&self) -> (r: Matrix)
        requires
            self.wf(),
            self.rows == self.cols,
            self.rows >= 2,
            !feq(spec_det(self.m(), self.rows as int), 0),
        ensures
            r.rows == self.rows,
            r.cols == self.cols,
            r.wf(),
            forall|p: int, q: int|
                0 <= p < self.rows && 0 <= q < self.cols ==> r.at(p, q) == fdiv(
                    spec_cofactor(self.m(), self.rows as int, q, p),
                    spec_det(self.m(), self.rows as int),
                ),
    {
        let det = self.determinant();
        let n = self.rows;
        let mut data: Vec<Vec<Fx>> = Vec::new();
        let mut p: usize = 0;
        while p < n
            invariant
                p <= n,
                self.wf(),
                self.rows == self.cols,
                n == self.rows,
                n >= 2,
                det.raw as int == spec_det(self.m(), n as int),
                data@.len() == p,
                forall|a: int| 0 <= a < p ==> (#[trigger] data@[a])@.len() == n,
                forall|a: int, b: int|
                    0 <= a < p && 0 <= b < n ==> (#[trigger] data@[a]@[b]).raw as int == fdiv(
                        spec_cofactor(self.m(), n as int, b, a),
                        spec_det(self.m(), n as int),
                    ),
            decreases n - p,
        {
            let mut row: Vec<Fx> = Vec::new();
            let mut q: usize = 0;
            while q < n
                invariant
                    p < n,
                    q <= n,
                    self.wf(),
                    self.rows == self.cols,
                    n == self.rows,
                    n >= 2,
                    det.raw as int == spec_det(self.m(), n as int),
                    row@.len() == q,
                    forall|b: int|
                        0 <= b < q ==> (#[trigger] row@[b]).raw as int == fdiv(
                            spec_cofactor(self.m(), n as int, b, p as int),
                            spec_det(self.m(), n as int),
                        ),
                decreases n - q,
            {
                row.push(self.cofactor(q, p).over(det));
                q = q + 1;
            }
            data.push(row);
            p = p + 1;
        }
        Matrix { rows: n, cols: n, data }
    }

    /// The affine translation by `(x, y, z)`.
    pub fn translation(x: Fx, y: Fx, z: Fx) -> (r: Matrix)
        ensures
            r.rows == 4,
            r.cols == 4,
            r.wf(),
            r.m() == spec_translation(x.v(), y.v(), z.v()),
    {
        let mut data: Vec<Vec<Fx>> = Vec::new();
        data.push(row4(Fx::one(), Fx::zero(), Fx::zero(), x));
        data.push(row4(Fx::zero(), Fx::one(), Fx::zero(), y));
        data.push(row4(Fx::zero(), Fx::zero(), Fx::one(), z));
        data.push(row4(Fx::zero(), Fx::zero(), Fx::zero(), Fx::one()));
        let r = Matrix { rows: 4, cols: 4, data };
        proof {
            assert(r.m() =~~= spec_translation(x.v(), y.v(), z.v()));
        }
        r
    }

    /// The axis scaling by `(x, y, z)`.
    pub fn scaling(x: Fx, y: Fx, z: Fx) -> (r: Matrix)
        ensures
            r.rows == 4,
            r.cols == 4,
            r.wf(),
            r.m() == spec_scaling(x.v(), y.v(), z.v()),
    {
        let mut data: Vec<Vec<Fx>> = Vec::new();
        data.push(row4(x, Fx::zero(), Fx::zero(), Fx::zero()));
        data.push(row4(Fx::zero(), y, Fx::zero(), Fx::zero()));
        data.push(row4(Fx::zero(), Fx::zero(), z, Fx::zero()));
        data.push(row4(Fx::zero(), Fx::zero(), Fx::zero(), Fx::one()));
        let r = Matrix { rows: 4, cols: 4, data };
        proof {
            assert(r.m() =~~= spec_scaling(x.v(), y.v(), z.v()));
        }
        r
    }

    /// The rotation about the x axis by an angle in degrees.
    pub fn rotation_x(deg: Fx) -> (r: Matrix)
        ensures
            r.rows == 4,
            r.cols == 4,
            r.wf(),
            r.m() == spec_rotation_x(deg.v()),
    {
        let rad = deg.times(pi()).over(Fx::from_int(180));
        let c = rad.cos();
        let s = rad.sin();
        let mut data: Vec<Vec<Fx>> = Vec::new();
        data.push(row4(Fx::one(), Fx::zero(), Fx::zero(), Fx::zero()));
        data.push(row4(Fx::zero(), c, s.neg(), Fx::zero()));
        data.push(row4(Fx::zero(), s, c, Fx::zero()));
        data.push(row4(Fx::zero(), Fx::zero(), Fx::zero(), Fx::one()));
        let r = Matrix { rows: 4, cols: 4, data };
        proof {
            assert(r.m() =~~= spec_rotation_x(deg.v()));
        }
        r
    }

    /// The rotation about the y axis by an angle in degrees.
    pub fn rotation_y(deg: Fx) -> (r: Matrix)
        ensures
            r.rows == 4,
            r.cols == 4,
            r.wf(),
            r.m() == spec_rotation_y(deg.v()),
    {
        let rad = deg.times(pi()).over(Fx::from_int(180));
        let c = rad.cos();
        let s = rad.sin();
        let mut data: Vec<Vec<Fx>> = Vec::new();
        data.push(row4(c, Fx::zero(), s, Fx::zero()));
        data.push(row4(Fx::zero(), Fx::one(), Fx::zero(), Fx::zero()));
        data.push(row4(s.neg(), Fx::zero(), c, Fx::zero()));
        data.push(row4(Fx::zero(), Fx::zero(), Fx::zero(), Fx::one()));
        let r = Matrix { rows: 4, cols: 4, data };
        proof {
            assert(r.m() =~~= spec_rotation_y(deg.v()));
        }
        r
    }

    /// The rotation about the z axis by an angle in degrees.
    pub fn rotation_z(deg: Fx) -> (r: Matrix)
        ensures
            r.rows == 4,
            r.cols == 4,
            r.wf(),
            r.m() == spec_rotation_z(deg.v()),
    {
        let rad = deg.times(pi()).over(Fx::from_int(180));
        let c = rad.cos();
        let s = rad.sin();
        let mut data: Vec<Vec<Fx>> = Vec::new();
        data.push(row4(c, s.neg(), Fx::zero(), Fx::zero()));
        data.push(row4(s, c, Fx::zero(), Fx::zero()));
        data.push(row4(Fx::zero(), Fx::zero(), Fx::one(), Fx::zero()));
        data.push(row4(Fx::zero(), Fx::zero(), Fx::zero(), Fx::one()));
        let r = Matrix { rows: 4, cols: 4, data };
        proof {
            assert(r.m() =~~= spec_rotation_z(deg.v()));
        }
        r
    }

    /// The shear with the six cross-axis factors.
    pub fn shearing(xy: Fx, xz: Fx, yx: Fx, yz: Fx, zx: Fx, zy: Fx) -> (r: Matrix)
        ensures
            r.rows == 4,
            r.cols == 4,
            r.wf(),
            r.m() == spec_shearing(xy.v(), xz.v(), yx.v(), yz.v(), zx.v(), zy.v()),
    {
        let mut data: Vec<Vec<Fx>> = Vec::new();
        data.push(row4(Fx::one(), xy, xz, Fx::zero()));
        data.push(row4(yx, Fx::one(), yz, Fx::zero()));
        data.push(row4(zx, zy, Fx::one(), Fx::zero()));
        data.push(row4(Fx::zero(), Fx::zero(), Fx::zero(), Fx::one()));
        let r = Matrix { rows: 4, cols: 4, data };
        proof {
            assert(r.m() =~~= spec_shearing(xy.v(), xz.v(), yx.v(), yz.v(), zx.v(), zy.v()));
        }
        r
    }
}

/// One row of a matrix against a tuple, accumulated left to right.
fn row_dot_exec(row: &Vec<Fx>, t: &Tuple) -> (r: Fx)
    requires
        row@.len() >= 4,
    ensures
        r.raw as int == row_dot(Seq::new(row@.len(), |j: int| (row@[j]).raw as int), t.m()),
{
    row[0].times(t.x).plus(row[1].times(t.y)).plus(row[2].times(t.z)).plus(row[3].times(t.w))
}

impl PartialEq for Matrix {
    fn eq(&self, other: &Matrix) -> (r: bool) {
        if self.data.len() != other.data.len() {
            proof {
                assert(!meq(self.m(), other.m()));
            }
            return false;
        }
        let mut i: usize = 0;
        while i < self.data.len()
            invariant
                i <= self.data@.len(),
                self.data@.len() == other.data@.len(),
                forall|p: int|
                    0 <= p < i ==> (#[trigger] self.data@[p])@.len() == other.data@[p]@.len(),
                forall|p: int, q: int|
                    0 <= p < i && 0 <= q < self.data@[p]@.len() ==> feq(
                        (#[trigger] self.data@[p]@[q]).raw as int,
                        (other.data@[p]@[q]).raw as int,
                    ),
            decreases self.data@.len() - i,
        {
            let a = &self.data[i];
            let b = &other.data[i];
            if a.len() != b.len() {
                proof {
                    assert(self.m()[i as int].len() != other.m()[i as int].len());
                    assert(!meq(self.m(), other.m()));
                }
                return false;
            }
            let mut j: usize = 0;
            while j < a.len()
                invariant
                    i < self.data@.len(),
                    self.data@.len() == other.data@.len(),
                    a == &self.data@[i as int],
                    b == &other.data@[i as int],
                    a@.len() == b@.len(),
                    j <= a@.len(),
                    forall|p: int|
                        0 <= p < i ==> (#[trigger] self.data@[p])@.len() == other.data@[p]@.len(),
                    forall|p: int, q: int|
                        0 <= p < i && 0 <= q < self.data@[p]@.len() ==> feq(
                            (#[trigger] self.data@[p]@[q]).raw as int,
                            (other.data@[p]@[q]).raw as int,
                        ),
                    forall|q: int|
                        0 <= q < j ==> feq(
                            (#[trigger] self.data@[i as int]@[q]).raw as int,
                            (other.data@[i as int]@[q]).raw as int,
                        ),
                decreases a@.len() - j,
            {
                if !equal(a[j], b[j]) {
                    proof {
                        assert(!feq(self.m()[i as int][j as int], other.m()[i as int][j as int]));
                        assert(!meq(self.m(), other.m()));
                    }
                    return false;
                }
                j = j + 1;
            }
            i = i + 1;
        }
        proof {
            assert forall|p: int| 0 <= p < self.m().len() implies #[trigger] self.m()[p].len()
                == other.m()[p].len() by {}
            assert forall|p: int, q: int|
                0 <= p < self.m().len() && 0 <= q < self.m()[p].len() implies feq(
                #[trigger] self.m()[p][q],
                other.m()[p][q],
            ) by {}
            assert(meq(self.m(), other.m()));
        }
        true
    }
}

impl vstd::std_specs::cmp::PartialEqSpecImpl for Matrix {
    open spec fn obeys_eq_spec() -> bool {
        true
    }

    open spec fn eq_spec(&self, other: &Matrix) -> bool {
        meq(self.m(), other.m())
    }
}

/// Relies on rand::random: a uniformly random 32-bit value.
#[verifier::external_body]
fn random_u32() -> u32 {
    rand::random::<u32>()
}

} // verus!
