//! A dense matrix of fixed-point values.
//!
//! Positions and velocities of the swarm are tasks-by-machines matrices. A
//! position row is one-hot: exactly one cell holds the fixed-point one
//! (`FX_SCALE`), all others are zero, encoding a single assignment choice.

use vstd::prelude::*;
use crate::fixed::FX_SCALE;
use crate::fixed::FX_CAP;
use crate::fixed::fx_mul;
use crate::fixed::fx_mul_spec;
use crate::utils::utilities::get_random_integer;
use crate::utils::utilities::get_random_float;

verus! {

/// Raw magnitude below which `get_index_of_first_non_zero_column_for_row`
/// treats a cell as zero (the fixed-point 0.0001).
pub const NEAR_ZERO_RAW: i64 = 1_000;

pub struct Matrix {
    rows: usize,
    cols: usize,
    data: Vec<Vec<i64>>,
}

impl Matrix {
    pub closed spec fn nrows(self) -> int {
        self.rows as int
    }

    pub closed spec fn ncols(self) -> int {
        self.cols as int
    }

    pub closed spec fn at(self, i: int, j: int) -> int {
        self.data@[i]@[j] as int
    }

    pub closed spec fn wf(self) -> bool {
        &&& self.data@.len() == self.rows
        &&& forall|i: int|
            0 <= i < self.rows ==> (#[trigger] self.data@[i])@.len() == self.cols
    }

    /// Row `i` holds exactly one fixed-point one, at column `j`.
    pub open spec fn is_one_hot_row_at(self, i: int, j: int) -> bool {
        &&& 0 <= j < self.ncols()
        &&& self.at(i, j) == FX_SCALE
        &&& forall|c: int| 0 <= c < self.ncols() && c != j ==> self.at(i, c) == 0
    }

    /// Row `i` encodes a single assignment choice.
    pub open spec fn one_hot_row(self, i: int) -> bool {
        exists|j: int| self.is_one_hot_row_at(i, j)
    }

    /// Every row encodes a single assignment choice.
    pub open spec fn all_rows_one_hot(self) -> bool {
        forall|i: int| 0 <= i < self.nrows() ==> #[trigger] self.one_hot_row(i)
    }

    /// Every cell's magnitude is at most `bound`.
    pub open spec fn cells_bounded_by(self, bound: int) -> bool {
        forall|i: int, j: int|
            0 <= i < self.nrows() && 0 <= j < self.ncols() ==> -bound <= #[trigger] self.at(
                i,
                j,
            ) <= bound
    }

    pub fn n_rows(&self) -> (r: usize)
        ensures
            r == self.nrows(),
    {
        self.rows
    }

    pub fn n_cols(&self) -> (r: usize)
        ensures
            r == self.ncols(),
    {
        self.cols
    }

    pub fn get(&self, i: usize, j: usize) -> (v: i64)
        requires
            self.wf(),
            i < self.nrows(),
            j < self.ncols(),
        ensures
            v == self.at(i as int, j as int),
    {
        self.data[i][j]
    }

    pub fn set(&mut self, i: usize, j: usize, v: i64)
        requires
            old(self).wf(),
            i < old(self).nrows(),
            j < old(self).ncols(),
        ensures
            final(self).wf(),
            final(self).nrows() == old(self).nrows(),
            final(self).ncols() == old(self).ncols(),
            final(self).at(i as int, j as int) == v,
            forall|r: int, c: int|
                0 <= r < old(self).nrows() && 0 <= c < old(self).ncols() && !(r == i && c == j)
                    ==> final(self).at(r, c) == old(self).at(r, c),
    {
        self.data[i][j] = v;
    }

    /// Builds a matrix from rectangular row data.
    pub fn new(data: Vec<Vec<i64>>) -> (m: Matrix)
        requires
            forall|i: int|
                0 <= i < data@.len() ==> (#[trigger] data@[i])@.len() == data@[0]@.len(),
        ensures
            m.wf(),
            m.nrows() == data@.len(),
            m.nrows() > 0 ==> m.ncols() == data@[0]@.len(),
            m.nrows() == 0 ==> m.ncols() == 0,
            forall|i: int, j: int|
                0 <= i < m.nrows() && 0 <= j < m.ncols() ==> #[trigger] m.at(i, j) == data@[i]@[j],
    {
        let rows = data.len();
        let cols = if rows == 0 {
            0
        } else {
            data[0].len()
        };
        Matrix { rows, cols, data }
    }

    /// The all-zero matrix of the given shape.
    pub fn zeros(rows: usize, cols: usize) -> (m: Matrix)
        ensures
            m.wf(),
            m.nrows() == rows,
            m.ncols() == cols,
            forall|i: int, j: int|
                0 <= i < rows && 0 <= j < cols ==> #[trigger] m.at(i, j) == 0,
    {
        let mut data: Vec<Vec<i64>> = Vec::new();
        for i in 0..rows
            invariant
                data@.len() == i,
                forall|r: int| 0 <= r < i ==> (#[trigger] data@[r])@.len() == cols,
                forall|r: int, c: int|
                    0 <= r < i && 0 <= c < cols ==> #[trigger] data@[r]@[c] == 0i64,
        {
            let mut row: Vec<i64> = Vec::new();
            for j in 0..cols
                invariant
                    row@.len() == j,
                    forall|c: int| 0 <= c < j ==> #[trigger] row@[c] == 0i64,
            {
                row.push(0i64);
            }
            data.push(row);
        }
        Matrix { rows, cols, data }
    }

    /// A matrix of independent uniform samples from `[min, max)`.
    pub fn random_velocity_init(rows: usize, cols: usize, min: i64, max: i64) -> (m: Matrix)
        requires
            0 <= min < max <= FX_CAP,
        ensures
            m.wf(),
            m.nrows() == rows,
            m.ncols() == cols,
            forall|i: int, j: int|
                0 <= i < rows && 0 <= j < cols ==> min <= #[trigger] m.at(i, j) < max,
    {
        let mut m = Matrix::zeros(rows, cols);
        let mut i: usize = 0;
        while i < rows
            invariant
                m.wf(),
                m.nrows() == rows,
                m.ncols() == cols,
                0 <= min < max <= FX_CAP,
                i <= rows,
                forall|r: int, c: int|
                    0 <= r < i && 0 <= c < cols ==> min <= #[trigger] m.at(r, c) < max,
            decreases rows - i,
        {
            let mut j: usize = 0;
            while j < cols
                invariant
                    m.wf(),
                    m.nrows() == rows,
                    m.ncols() == cols,
                    0 <= min < max <= FX_CAP,
                    i < rows,
                    j <= cols,
                    forall|r: int, c: int|
                        0 <= r < i && 0 <= c < cols ==> min <= #[trigger] m.at(r, c) < max,
                    forall|c: int| 0 <= c < j ==> min <= #[trigger] m.at(i as int, c) < max,
                decreases cols - j,
            {
                let v = get_random_float(min, max);
                m.set(i, j, v);
                j = j + 1;
            }
            i = i + 1;
        }
        m
    }

    /// A matrix whose every row is one-hot at an independently random column.
    pub fn random_position_init(rows: usize, cols: usize) -> (m: Matrix)
        requires
            cols >= 1,
        ensures
            m.wf(),
            m.nrows() == rows,
            m.ncols() == cols,
            m.all_rows_one_hot(),
    {
        let mut m = Matrix::zeros(rows, cols);
        let mut i: usize = 0;
        while i < rows
            invariant
                m.wf(),
                m.nrows() == rows,
                m.ncols() == cols,
                cols >= 1,
                i <= rows,
                forall|r: int| 0 <= r < i ==> #[trigger] m.one_hot_row(r),
                forall|r: int, c: int|
                    i <= r < rows && 0 <= c < cols ==> #[trigger] m.at(r, c) == 0,
            decreases rows - i,
        {
            let j = get_random_integer(0, cols);
            let ghost m_pre = m;
            m.set(i, j, FX_SCALE);
            proof {
                assert(m.is_one_hot_row_at(i as int, j as int));
                assert forall|r: int| 0 <= r < i + 1 implies #[trigger] m.one_hot_row(r) by {
                    if r < i {
                        assert(m_pre.one_hot_row(r));
                        let jr = choose|jr: int| m_pre.is_one_hot_row_at(r, jr);
                        assert(m.is_one_hot_row_at(r, jr));
                    } else {
                        assert(m.is_one_hot_row_at(r, j as int));
                    }
                }
            }
            i = i + 1;
        }
        m
    }

    /// A cell-by-cell copy.
    pub fn duplicate(&self) -> (m: Matrix)
        requires
            self.wf(),
        ensures
            m.wf(),
            m.nrows() == self.nrows(),
            m.ncols() == self.ncols(),
            forall|i: int, j: int|
                0 <= i < self.nrows() && 0 <= j < self.ncols() ==> #[trigger] m.at(i, j)
                    == self.at(i, j),
    {
        let rows = self.rows;
        let cols = self.cols;
        let mut m = Matrix::zeros(rows, cols);
        let mut i: usize = 0;
        while i < rows
            invariant
                self.wf(),
                self.nrows() == rows,
                self.ncols() == cols,
                m.wf(),
                m.nrows() == rows,
                m.ncols() == cols,
                i <= rows,
                forall|r: int, c: int|
                    0 <= r < i && 0 <= c < cols ==> #[trigger] m.at(r, c) == self.at(r, c),
            decreases rows - i,
        {
            let mut j: usize = 0;
            while j < cols
                invariant
                    self.wf(),
                    self.nrows() == rows,
                    self.ncols() == cols,
                    m.wf(),
                    m.nrows() == rows,
                    m.ncols() == cols,
                    i < rows,
                    j <= cols,
                    forall|r: int, c: int|
                        0 <= r < i && 0 <= c < cols ==> #[trigger] m.at(r, c) == self.at(r, c),
                    forall|c: int|
                        0 <= c < j ==> #[trigger] m.at(i as int, c) == self.at(i as int, c),
                decreases cols - j,
            {
                let v = self.get(i, j);
                m.set(i, j, v);
                j = j + 1;
            }
            i = i + 1;
        }
        m
    }

    /// Scales every cell by the fixed-point factor `rhs`.
    pub fn mul(&mut self, rhs: i64)
        requires
            old(self).wf(),
            old(self).cells_bounded_by(FX_CAP as int),
            -FX_CAP <= rhs <= FX_CAP,
        ensures
            final(self).wf(),
            final(self).nrows() == old(self).nrows(),
            final(self).ncols() == old(self).ncols(),
            forall|i: int, j: int|
                0 <= i < old(self).nrows() && 0 <= j < old(self).ncols() ==> #[trigger] final(self).at(i, j) == fx_mul_spec(old(self).at(i, j), rhs as int),
    {
        let rows = self.rows;
        let cols = self.cols;
        let ghost m0 = *self;
        let mut i: usize = 0;
        while i < rows
            invariant
                self.wf(),
                self.nrows() == rows,
                self.ncols() == cols,
                m0.nrows() == rows,
                m0.ncols() == cols,
                m0.cells_bounded_by(FX_CAP as int),
                -FX_CAP <= rhs <= FX_CAP,
                i <= rows,
                forall|r: int, c: int|
                    0 <= r < i && 0 <= c < cols ==> #[trigger] self.at(r, c) == fx_mul_spec(
                        m0.at(r, c),
                        rhs as int,
                    ),
                forall|r: int, c: int|
                    i <= r < rows && 0 <= c < cols ==> #[trigger] self.at(r, c) == m0.at(r, c),
            decreases rows - i,
        {
            let mut j: usize = 0;
            while j < cols
                invariant
                    self.wf(),
                    self.nrows() == rows,
                    self.ncols() == cols,
                    m0.nrows() == rows,
                    m0.ncols() == cols,
                    m0.cells_bounded_by(FX_CAP as int),
                    -FX_CAP <= rhs <= FX_CAP,
                    i < rows,
                    j <= cols,
                    forall|r: int, c: int|
                        0 <= r < i && 0 <= c < cols ==> #[trigger] self.at(r, c) == fx_mul_spec(
                            m0.at(r, c),
                            rhs as int,
                        ),
                    forall|c: int|
                        0 <= c < j ==> #[trigger] self.at(i as int, c) == fx_mul_spec(
                            m0.at(i as int, c),
                            rhs as int,
                        ),
                    forall|r: int, c: int|
                        i < r < rows && 0 <= c < cols ==> #[trigger] self.at(r, c) == m0.at(r, c),
                    forall|c: int|
                        j <= c < cols ==> #[trigger] self.at(i as int, c) == m0.at(i as int, c),
                decreases cols - j,
            {
                let v = self.get(i, j);
                let nv = fx_mul(v, rhs);
                self.set(i, j, nv);
                j = j + 1;
            }
            i = i + 1;
        }
    }

    /// Adds `rhs` cell by cell.
    pub fn add(&mut self, rhs: &Matrix)
        requires
            old(self).wf(),
            rhs.wf(),
            old(self).nrows() == rhs.nrows(),
            old(self).ncols() == rhs.ncols(),
            old(self).cells_bounded_by(FX_CAP as int),
            rhs.cells_bounded_by(FX_CAP as int),
        ensures
            final(self).wf(),
            final(self).nrows() == old(self).nrows(),
            final(self).ncols() == old(self).ncols(),
            forall|i: int, j: int|
                0 <= i < old(self).nrows() && 0 <= j < old(self).ncols() ==> #[trigger] final(self).at(i, j) == old(self).at(i, j) + rhs.at(i, j),
    {
        let rows = self.rows;
        let cols = self.cols;
        let ghost m0 = *self;
        let mut i: usize = 0;
        while i < rows
            invariant
                self.wf(),
                self.nrows() == rows,
                self.ncols() == cols,
                m0.nrows() == rows,
                m0.ncols() == cols,
                rhs.wf(),
                rhs.nrows() == rows,
                rhs.ncols() == cols,
                m0.cells_bounded_by(FX_CAP as int),
                rhs.cells_bounded_by(FX_CAP as int),
                i <= rows,
                forall|r: int, c: int|
                    0 <= r < i && 0 <= c < cols ==> #[trigger] self.at(r, c) == m0.at(r, c)
                        + rhs.at(r, c),
                forall|r: int, c: int|
                    i <= r < rows && 0 <= c < cols ==> #[trigger] self.at(r, c) == m0.at(r, c),
            decreases rows - i,
        {
            let mut j: usize = 0;
            while j < cols
                invariant
                    self.wf(),
                    self.nrows() == rows,
                    self.ncols() == cols,
                    m0.nrows() == rows,
                    m0.ncols() == cols,
                    rhs.wf(),
                    rhs.nrows() == rows,
                    rhs.ncols() == cols,
                    m0.cells_bounded_by(FX_CAP as int),
                    rhs.cells_bounded_by(FX_CAP as int),
                    i < rows,
                    j <= cols,
                    forall|r: int, c: int|
                        0 <= r < i && 0 <= c < cols ==> #[trigger] self.at(r, c) == m0.at(r, c)
                            + rhs.at(r, c),
                    forall|c: int|
                        0 <= c < j ==> #[trigger] self.at(i as int, c) == m0.at(i as int, c)
                            + rhs.at(i as int, c),
                    forall|r: int, c: int|
                        i < r < rows && 0 <= c < cols ==> #[trigger] self.at(r, c) == m0.at(r, c),
                    forall|c: int|
                        j <= c < cols ==> #[trigger] self.at(i as int, c) == m0.at(i as int, c),
                decreases cols - j,
            {
                let v = self.get(i, j);
                let w = rhs.get(i, j);
                self.set(i, j, v + w);
                j = j + 1;
            }
            i = i + 1;
        }
    }

    /// Subtracts `rhs` cell by cell.
    pub fn sub(&mut self, rhs: &Matrix)
        requires
            old(self).wf(),
            rhs.wf(),
            old(self).nrows() == rhs.nrows(),
            old(self).ncols() == rhs.ncols(),
            old(self).cells_bounded_by(FX_CAP as int),
            rhs.cells_bounded_by(FX_CAP as int),
        ensures
            final(self).wf(),
            final(self).nrows() == old(self).nrows(),
            final(self).ncols() == old(self).ncols(),
            forall|i: int, j: int|
                0 <= i < old(self).nrows() && 0 <= j < old(self).ncols() ==> #[trigger] final(self).at(i, j) == old(self).at(i, j) - rhs.at(i, j),
    {
        let rows = self.rows;
        let cols = self.cols;
        let ghost m0 = *self;
        let mut i: usize = 0;
        while i < rows
            invariant
                self.wf(),
                self.nrows() == rows,
                self.ncols() == cols,
                m0.nrows() == rows,
                m0.ncols() == cols,
                rhs.wf(),
                rhs.nrows() == rows,
                rhs.ncols() == cols,
                m0.cells_bounded_by(FX_CAP as int),
                rhs.cells_bounded_by(FX_CAP as int),
                i <= rows,
                forall|r: int, c: int|
                    0 <= r < i && 0 <= c < cols ==> #[trigger] self.at(r, c) == m0.at(r, c)
                        - rhs.at(r, c),
                forall|r: int, c: int|
                    i <= r < rows && 0 <= c < cols ==> #[trigger] self.at(r, c) == m0.at(r, c),
            decreases rows - i,
        {
            let mut j: usize = 0;
            while j < cols
                invariant
                    self.wf(),
                    self.nrows() == rows,
                    self.ncols() == cols,
                    m0.nrows() == rows,
                    m0.ncols() == cols,
                    rhs.wf(),
                    rhs.nrows() == rows,
                    rhs.ncols() == cols,
                    m0.cells_bounded_by(FX_CAP as int),
                    rhs.cells_bounded_by(FX_CAP as int),
                    i < rows,
                    j <= cols,
                    forall|r: int, c: int|
                        0 <= r < i && 0 <= c < cols ==> #[trigger] self.at(r, c) == m0.at(r, c)
                            - rhs.at(r, c),
                    forall|c: int|
                        0 <= c < j ==> #[trigger] self.at(i as int, c) == m0.at(i as int, c)
                            - rhs.at(i as int, c),
                    forall|r: int, c: int|
                        i < r < rows && 0 <= c < cols ==> #[trigger] self.at(r, c) == m0.at(r, c),
                    forall|c: int|
                        j <= c < cols ==> #[trigger] self.at(i as int, c) == m0.at(i as int, c),
                decreases cols - j,
            {
                let v = self.get(i, j);
                let w = rhs.get(i, j);
                self.set(i, j, v - w);
                j = j + 1;
            }
            i = i + 1;
        }
    }

    /// Replaces every cell whose magnitude reaches `max_bound` by a fresh
    /// uniform sample from `[0, max_bound)`; afterwards every magnitude is
    /// strictly below the bound.
    pub fn enforce_elementwise_bound(&mut self, max_bound: i64)
        requires
            old(self).wf(),
            0 < max_bound <= FX_CAP,
        ensures
            final(self).wf(),
            final(self).nrows() == old(self).nrows(),
            final(self).ncols() == old(self).ncols(),
            forall|i: int, j: int|
                0 <= i < old(self).nrows() && 0 <= j < old(self).ncols()
                    ==> -max_bound < #[trigger] final(self).at(i, j) < max_bound,
            forall|i: int, j: int|
                0 <= i < old(self).nrows() && 0 <= j < old(self).ncols() && -max_bound < old(
                    self,
                ).at(i, j) < max_bound ==> #[trigger] final(self).at(i, j) == old(self).at(i, j),
            forall|i: int, j: int|
                0 <= i < old(self).nrows() && 0 <= j < old(self).ncols() && !(-max_bound < old(
                    self,
                ).at(i, j) < max_bound) ==> 0 <= #[trigger] final(self).at(i, j) < max_bound,
    {
        let rows = self.rows;
        let cols = self.cols;
        let ghost m0 = *self;
        let mut i: usize = 0;
        while i < rows
            invariant
                self.wf(),
                self.nrows() == rows,
                self.ncols() == cols,
                m0.nrows() == rows,
                m0.ncols() == cols,
                0 < max_bound <= FX_CAP,
                i <= rows,
                forall|r: int, c: int|
                    0 <= r < i && 0 <= c < cols ==> -max_bound < #[trigger] self.at(r, c)
                        < max_bound,
                forall|r: int, c: int|
                    0 <= r < i && 0 <= c < cols && -max_bound < m0.at(r, c) < max_bound
                        ==> #[trigger] self.at(r, c) == m0.at(r, c),
                forall|r: int, c: int|
                    0 <= r < i && 0 <= c < cols && !(-max_bound < m0.at(r, c) < max_bound)
                        ==> 0 <= #[trigger] self.at(r, c) < max_bound,
                forall|r: int, c: int|
                    i <= r < rows && 0 <= c < cols ==> #[trigger] self.at(r, c) == m0.at(r, c),
            decreases rows - i,
        {
            let mut j: usize = 0;
            while j < cols
                invariant
                    self.wf(),
                    self.nrows() == rows,
                    self.ncols() == cols,
                    m0.nrows() == rows,
                    m0.ncols() == cols,
                    0 < max_bound <= FX_CAP,
                    i < rows,
                    j <= cols,
                    forall|r: int, c: int|
                        0 <= r < i && 0 <= c < cols ==> -max_bound < #[trigger] self.at(r, c)
                            < max_bound,
                    forall|r: int, c: int|
                        0 <= r < i && 0 <= c < cols && -max_bound < m0.at(r, c) < max_bound
                            ==> #[trigger] self.at(r, c) == m0.at(r, c),
                    forall|c: int|
                        0 <= c < j ==> -max_bound < #[trigger] self.at(i as int, c) < max_bound,
                    forall|r: int, c: int|
                        0 <= r < i && 0 <= c < cols && !(-max_bound < m0.at(r, c) < max_bound)
                            ==> 0 <= #[trigger] self.at(r, c) < max_bound,
                    forall|c: int|
                        0 <= c < j && -max_bound < m0.at(i as int, c) < max_bound
                            ==> #[trigger] self.at(i as int, c) == m0.at(i as int, c),
                    forall|c: int|
                        0 <= c < j && !(-max_bound < m0.at(i as int, c) < max_bound)
                            ==> 0 <= #[trigger] self.at(i as int, c) < max_bound,
                    forall|r: int, c: int|
                        i < r < rows && 0 <= c < cols ==> #[trigger] self.at(r, c) == m0.at(r, c),
                    forall|c: int|
                        j <= c < cols ==> #[trigger] self.at(i as int, c) == m0.at(i as int, c),
                decreases cols - j,
            {
                let v = self.get(i, j);
                if v >= max_bound || v <= -max_bound {
                    let nv = get_random_float(0, max_bound);
                    self.set(i, j, nv);
                }
                j = j + 1;
            }
            i = i + 1;
        }
    }

    /// Clears every cell to zero.
    pub fn zero_out(&mut self)
        requires
            old(self).wf(),
        ensures
            final(self).wf(),
            final(self).nrows() == old(self).nrows(),
            final(self).ncols() == old(self).ncols(),
            forall|i: int, j: int|
                0 <= i < old(self).nrows() && 0 <= j < old(self).ncols() ==> #[trigger] final(self).at(i, j) == 0,
    {
        let rows = self.rows;
        let cols = self.cols;
        let mut i: usize = 0;
        while i < rows
            invariant
                self.wf(),
                self.nrows() == rows,
                self.ncols() == cols,
                i <= rows,
                forall|r: int, c: int|
                    0 <= r < i && 0 <= c < cols ==> #[trigger] self.at(r, c) == 0,
            decreases rows - i,
        {
            let mut j: usize = 0;
            while j < cols
                invariant
                    self.wf(),
                    self.nrows() == rows,
                    self.ncols() == cols,
                    i < rows,
                    j <= cols,
                    forall|r: int, c: int|
                        0 <= r < i && 0 <= c < cols ==> #[trigger] self.at(r, c) == 0,
                    forall|c: int| 0 <= c < j ==> #[trigger] self.at(i as int, c) == 0,
                decreases cols - j,
            {
                self.set(i, j, 0i64);
                j = j + 1;
            }
            i = i + 1;
        }
    }

    /// The first column attaining the row's maximum (ties go to the lowest
    /// column index).
    pub fn get_index_of_maximum_col_for_row(&self, row: usize) -> (r: usize)
        requires
            self.wf(),
            row < self.nrows(),
            self.ncols() >= 1,
        ensures
            r == first_max_col(*self, row as int),
            r < self.ncols(),
            forall|c: int| 0 <= c < self.ncols() ==> self.at(row as int, c) <= self.at(
                row as int,
                r as int,
            ),
            forall|c: int| 0 <= c < r ==> self.at(row as int, c) < self.at(row as int, r as int),
    {
        let cols = self.cols;
        let mut best: usize = 0;
        let mut j: usize = 1;
        while j < cols
            invariant
                self.wf(),
                row < self.nrows(),
                self.ncols() == cols,
                cols >= 1,
                1 <= j <= cols,
                best < j,
                best == first_max_col_upto(*self, row as int, j as int),
                forall|c: int| 0 <= c < j ==> self.at(row as int, c) <= self.at(
                    row as int,
                    best as int,
                ),
                forall|c: int| 0 <= c < best ==> self.at(row as int, c) < self.at(
                    row as int,
                    best as int,
                ),
            decreases cols - j,
        {
            let v = self.get(row, j);
            let b = self.get(row, best);
            if v > b {
                best = j;
            }
            j = j + 1;
        }
        best
    }

    /// The first column whose cell is not negligibly small; the precondition
    /// demands that one exists (a row with none is corrupted state).
    pub fn get_index_of_first_non_zero_column_for_row(&self, row: usize) -> (r: usize)
        requires
            self.wf(),
            row < self.nrows(),
            exists|c: int|
                0 <= c < self.ncols() && !(-NEAR_ZERO_RAW <= #[trigger] self.at(row as int, c)
                    <= NEAR_ZERO_RAW),
        ensures
            r < self.ncols(),
            !(-NEAR_ZERO_RAW <= self.at(row as int, r as int) <= NEAR_ZERO_RAW),
            forall|c: int|
                0 <= c < r ==> -NEAR_ZERO_RAW <= #[trigger] self.at(row as int, c)
                    <= NEAR_ZERO_RAW,
    {
        let cols = self.cols;
        let mut j: usize = 0;
        while j < cols
            invariant
                self.wf(),
                row < self.nrows(),
                self.ncols() == cols,
                j <= cols,
                exists|c: int|
                    0 <= c < cols && !(-NEAR_ZERO_RAW <= #[trigger] self.at(row as int, c)
                        <= NEAR_ZERO_RAW),
                forall|c: int|
                    0 <= c < j ==> -NEAR_ZERO_RAW <= #[trigger] self.at(row as int, c)
                        <= NEAR_ZERO_RAW,
            decreases cols - j,
        {
            let v = self.get(row, j);
            if v > NEAR_ZERO_RAW || v < -NEAR_ZERO_RAW {
                return j;
            }
            j = j + 1;
        }
        proof {
            assert(false);
        }
        0
    }

    /// All cells strictly above `threshold`, listed with their coordinates.
    pub fn cells_above(&self, threshold: i64) -> (r: Vec<(usize, usize)>)
        requires
            self.wf(),
        ensures
            forall|p: (usize, usize)|
                #[trigger] r@.contains(p) <==> p.0 < self.nrows() && p.1 < self.ncols() && self.at(
                    p.0 as int,
                    p.1 as int,
                ) > threshold,
            forall|k1: int, k2: int|
                0 <= k1 < k2 < r@.len() ==> #[trigger] r@[k1] != #[trigger] r@[k2],
    {
        let rows = self.rows;
        let cols = self.cols;
        let mut out: Vec<(usize, usize)> = Vec::new();
        let mut i: usize = 0;
        while i < rows
            invariant
                self.wf(),
                self.nrows() == rows,
                self.ncols() == cols,
                i <= rows,
                forall|p: (usize, usize)|
                    #[trigger] out@.contains(p) <==> (p.0 < i || (p.0 == i && p.1 < 0)) && p.1
                        < cols && self.at(p.0 as int, p.1 as int) > threshold,
                forall|k1: int, k2: int|
                    0 <= k1 < k2 < out@.len() ==> row_major_lt(#[trigger] out@[k1], #[trigger] out@[k2]),
            decreases rows - i,
        {
            let mut j: usize = 0;
            while j < cols
                invariant
                    self.wf(),
                    self.nrows() == rows,
                    self.ncols() == cols,
                    i < rows,
                    j <= cols,
                    forall|p: (usize, usize)|
                        #[trigger] out@.contains(p) <==> (p.0 < i || (p.0 == i && p.1 < j)) && p.1
                            < cols && self.at(p.0 as int, p.1 as int) > threshold,
                    forall|k1: int, k2: int|
                        0 <= k1 < k2 < out@.len() ==> row_major_lt(#[trigger] out@[k1], #[trigger] out@[k2]),
                decreases cols - j,
            {
                let v = self.get(i, j);
                if v > threshold {
                    let ghost pre = out@;
                    out.push((i, j));
                    proof {
                        assert forall|p: (usize, usize)| #[trigger]
                            out@.contains(p) <==> pre.contains(p) || p == (
                            i,
                            j,
                        ) by {
                            lemma_push_contains(pre, (i, j), p);
                        }
                        assert forall|k1: int, k2: int|
                            0 <= k1 < k2 < out@.len() implies row_major_lt(
                            #[trigger] out@[k1],
                            #[trigger] out@[k2],
                        ) by {
                            if k2 == out@.len() - 1 {
                                assert(pre.contains(pre[k1]));
                            }
                        }
                    }
                }
                j = j + 1;
            }
            i = i + 1;
        }
        out
    }
}

/// Strict row-major order on cell coordinates.
pub open spec fn row_major_lt(a: (usize, usize), b: (usize, usize)) -> bool {
    a.0 < b.0 || (a.0 == b.0 && a.1 < b.1)
}

/// Membership in a sequence extended by one element.
proof fn lemma_push_contains<A>(s: Seq<A>, e: A, x: A)
    ensures
        s.push(e).contains(x) <==> s.contains(x) || x == e,
{
    if s.push(e).contains(x) {
        let k = choose|k: int| 0 <= k < s.push(e).len() && s.push(e)[k] == x;
        if k < s.len() {
            assert(s[k] == x);
        }
    }
    if s.contains(x) {
        let k = choose|k: int| 0 <= k < s.len() && s[k] == x;
        assert(s.push(e)[k] == x);
    }
    if x == e {
        assert(s.push(e)[s.len() as int] == x);
    }
}

/// The first column attaining the maximum of row `i` among columns `0..n`.
pub open spec fn first_max_col_upto(m: Matrix, i: int, n: int) -> int
    decreases n,
{
    if n <= 1 {
        0
    } else {
        let b = first_max_col_upto(m, i, n - 1);
        if m.at(i, n - 1) > m.at(i, b) {
            n - 1
        } else {
            b
        }
    }
}

/// The first column attaining the maximum of row `i`.
pub open spec fn first_max_col(m: Matrix, i: int) -> int {
    first_max_col_upto(m, i, m.ncols())
}

/// Sum of the first `n` cells of row `i`.
pub open spec fn row_sum_upto(m: Matrix, i: int, n: int) -> int
    decreases n,
{
    if n <= 0 {
        0
    } else {
        row_sum_upto(m, i, n - 1) + m.at(i, n - 1)
    }
}

/// Sum of row `i`.
pub open spec fn row_sum(m: Matrix, i: int) -> int {
    row_sum_upto(m, i, m.ncols())
}

proof fn lemma_one_hot_row_partial_sum(m: Matrix, i: int, j: int, n: int)
    requires
        m.is_one_hot_row_at(i, j),
        0 <= n <= m.ncols(),
    ensures
        row_sum_upto(m, i, n) == if n <= j {
            0int
        } else {
            FX_SCALE as int
        },
    decreases n,
{
    if n > 0 {
        lemma_one_hot_row_partial_sum(m, i, j, n - 1);
    }
}

/// Cells of a matrix whose rows are all one-hot lie between zero and the
/// fixed-point one.
pub proof fn lemma_one_hot_cells_bounded(m: Matrix)
    requires
        m.all_rows_one_hot(),
    ensures
        forall|i: int, j: int|
            0 <= i < m.nrows() && 0 <= j < m.ncols() ==> 0 <= #[trigger] m.at(i, j) <= FX_SCALE,
{
    assert forall|i: int, j: int|
        0 <= i < m.nrows() && 0 <= j < m.ncols() implies 0 <= #[trigger] m.at(i, j)
        <= FX_SCALE by {
        assert(m.one_hot_row(i));
        let jh = choose|jh: int| m.is_one_hot_row_at(i, jh);
        if j != jh {
            assert(m.at(i, j) == 0);
        }
    }
}

/// A one-hot position row sums to exactly the fixed-point one: each task is
/// assigned to exactly one virtual machine.
pub proof fn lemma_one_hot_row_sums_to_one(m: Matrix, i: int)
    requires
        0 <= i < m.nrows(),
        m.one_hot_row(i),
    ensures
        row_sum(m, i) == FX_SCALE,
{
    let j = choose|j: int| m.is_one_hot_row_at(i, j);
    lemma_one_hot_row_partial_sum(m, i, j, m.ncols());
}

} // verus!
