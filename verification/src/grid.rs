//! Two-dimensional grids of palette indices.
//!
//! A cell is addressed by a pair `(row, col)`. Following the convention of
//! the whole crate, `row` counts along the width of the grid and `col` along
//! its height, so in the linear order of the cells `row` varies fastest.

use vstd::arithmetic::div_mod::lemma_fundamental_div_mod;
use vstd::arithmetic::div_mod::lemma_fundamental_div_mod_converse;
use vstd::arithmetic::div_mod::lemma_mod_bound;
use vstd::prelude::*;

verus! {

/// The content of a grid: its dimensions and its cells in linear order.
pub struct GridModel<T> {
    pub width: nat,
    pub height: nat,
    pub cells: Seq<T>,
}

impl<T> GridModel<T> {
    /// There is exactly one cell for each position.
    pub open spec fn wf(self) -> bool {
        self.cells.len() == self.width * self.height
    }

    /// Whether `(row, col)` is a position of the grid.
    pub open spec fn contains(self, row: int, col: int) -> bool {
        0 <= row < self.width && 0 <= col < self.height
    }

    /// The place of `(row, col)` in the linear order.
    pub open spec fn linear(self, row: int, col: int) -> int {
        col * self.width + row
    }

    /// The cell at `(row, col)`.
    pub open spec fn at(self, row: int, col: int) -> T {
        self.cells[self.linear(row, col)]
    }

    /// The grid with the cell at `(row, col)` replaced by `v`.
    pub open spec fn put(self, row: int, col: int, v: T) -> GridModel<T> {
        GridModel {
            width: self.width,
            height: self.height,
            cells: self.cells.update(self.linear(row, col), v),
        }
    }

    /// The grid of the given dimensions whose cells all hold `v`.
    pub open spec fn filled(width: nat, height: nat, v: T) -> GridModel<T> {
        GridModel { width, height, cells: Seq::new(width * height, |i: int| v) }
    }
}

/// A position of a grid has a place in the linear order of its cells.
pub proof fn lemma_linear_in_range(width: nat, height: nat, row: int, col: int)
    requires
        0 <= row < width,
        0 <= col < height,
    ensures
        0 <= col * width + row < width * height,
{
    assert(0 <= col * width + row < width * height) by (nonlinear_arith)
        requires
            0 <= row < width,
            0 <= col < height,
    ;
}

/// The linear place of a position determines the position.
pub proof fn lemma_linear_split(width: nat, row: int, col: int)
    requires
        0 <= row < width,
        0 <= col,
    ensures
        (col * width + row) % (width as int) == row,
        (col * width + row) / (width as int) == col,
{
    lemma_fundamental_div_mod_converse(col * width + row, width as int, col, row);
}

/// Every place in the linear order is the place of one position.
pub proof fn lemma_linear_join(width: nat, height: nat, i: int)
    requires
        0 <= i < width * height,
    ensures
        0 <= i % (width as int) < width,
        0 <= i / (width as int) < height,
        (i / (width as int)) * width + i % (width as int) == i,
{
    assert(width > 0) by (nonlinear_arith)
        requires
            0 <= i < width * height,
    ;
    let w = width as int;
    lemma_fundamental_div_mod(i, w);
    lemma_mod_bound(i, w);
    assert(0 <= i / w < height) by (nonlinear_arith)
        requires
            0 <= i < w * height,
            w > 0,
            i == w * (i / w) + i % w,
            0 <= i % w < w,
    ;
    assert((i / w) * w == w * (i / w)) by (nonlinear_arith);
}

/// What `put` does to each cell of a well-formed grid.
pub proof fn lemma_put_at<T>(m: GridModel<T>, row: int, col: int, v: T)
    requires
        m.wf(),
        m.contains(row, col),
    ensures
        m.put(row, col, v).wf(),
        m.put(row, col, v).at(row, col) == v,
        forall|r: int, c: int|
            m.contains(r, c) && !(r == row && c == col) ==> #[trigger] m.put(row, col, v).at(r, c)
                == m.at(r, c),
{
    lemma_linear_in_range(m.width, m.height, row, col);
    let after = m.put(row, col, v);
    assert forall|r: int, c: int| m.contains(r, c) && !(r == row && c == col) implies #[trigger] after.at(
        r,
        c,
    ) == m.at(r, c) by {
        lemma_linear_in_range(m.width, m.height, r, c);
        lemma_linear_split(m.width, r, c);
        lemma_linear_split(m.width, row, col);
    }
}

/// Two well-formed grids of the same dimensions with the same cell at every
/// position are the same grid.
pub proof fn lemma_grid_ext<T>(a: GridModel<T>, b: GridModel<T>)
    requires
        a.wf(),
        b.wf(),
        a.width == b.width,
        a.height == b.height,
        forall|r: int, c: int| a.contains(r, c) ==> #[trigger] a.at(r, c) == b.at(r, c),
    ensures
        a == b,
{
    assert forall|i: int| 0 <= i < a.cells.len() implies a.cells[i] == b.cells[i] by {
        lemma_linear_join(a.width, a.height, i);
        let w = a.width as int;
        assert(a.contains(i % w, i / w));
        assert(a.at(i % w, i / w) == b.at(i % w, i / w));
    }
    assert(a.cells =~= b.cells);
}

/// A two-dimensional grid of elements.
pub trait Grid<T> {
    /// The dimensions and cells of the grid.
    spec fn model(&self) -> GridModel<T>;

    /// The cell at `(row, col)`.
    fn get(&self, row: usize, col: usize) -> (v: T)
        requires
            self.model().wf(),
            self.model().contains(row as int, col as int),
        ensures
            v == self.model().at(row as int, col as int),
    ;

    /// Replaces the cell at `(row, col)` by `v`.
    fn set(&mut self, row: usize, col: usize, v: T)
        requires
            old(self).model().wf(),
            old(self).model().contains(row as int, col as int),
        ensures
            final(self).model() == old(self).model().put(row as int, col as int, v),
    ;

    /// The number of positions along `row`.
    fn width(&self) -> (w: usize)
        ensures
            w == self.model().width,
    ;

    /// The number of positions along `col`.
    fn height(&self) -> (h: usize)
        ensures
            h == self.model().height,
    ;

    /// The cell at place `idx` of the linear order, in which `row` varies
    /// fastest.
    fn idx_linear(&self, idx: usize) -> (v: T)
        requires
            self.model().wf(),
            idx < self.model().width * self.model().height,
        ensures
            v == self.model().at(
                idx as int % self.model().width as int,
                idx as int / self.model().width as int,
            ),
            v == self.model().cells[idx as int],
    {
        proof {
            lemma_linear_join(self.model().width, self.model().height, idx as int);
        }
        let w = self.width();
        self.get(idx % w, idx / w)
    }
}

/// A grid of palette indices with `W` positions across and `H` down.
pub struct CanvasGrid<const W: usize, const H: usize> {
    grid: Vec<usize>,
}

impl<const W: usize, const H: usize> CanvasGrid<W, H> {
    /// The cells in linear order.
    pub closed spec fn cells(&self) -> Seq<usize> {
        self.grid@
    }

    /// A grid whose cells all hold index 0.
    pub fn new() -> (g: Self)
        requires
            W * H <= usize::MAX,
        ensures
            g.model() == GridModel::filled(W as nat, H as nat, 0usize),
    {
        let g = CanvasGrid { grid: vec![0usize; W * H] };
        assert(g.cells() =~= Seq::new((W * H) as nat, |i: int| 0usize));
        g
    }

    /// Stores the palette index `idx` in the cell at `(row, col)`, the cell
    /// that `get(row, col)` reads.
    pub fn set_pixel(&mut self, row: usize, col: usize, idx: usize)
        requires
            old(self).model().wf(),
            row < W,
            col < H,
        ensures
            final(self).model() == old(self).model().put(row as int, col as int, idx),
    {
        self.set(row, col, idx);
    }

    /// The number of positions across.
    pub fn width(&self) -> (w: usize)
        ensures
            w == W,
    {
        W
    }

    /// The number of positions down.
    pub fn height(&self) -> (h: usize)
        ensures
            h == H,
    {
        H
    }
}

impl<const W: usize, const H: usize> Grid<usize> for CanvasGrid<W, H> {
    open spec fn model(&self) -> GridModel<usize> {
        GridModel { width: W as nat, height: H as nat, cells: self.cells() }
    }

    fn get(&self, row: usize, col: usize) -> (v: usize) {
        proof {
            lemma_linear_in_range(W as nat, H as nat, row as int, col as int);
            assert(self.grid.len() == W * H);
        }
        self.grid[col * W + row]
    }

    fn set(&mut self, row: usize, col: usize, v: usize) {
        proof {
            lemma_linear_in_range(W as nat, H as nat, row as int, col as int);
            assert(self.grid.len() == W * H);
        }
        self.grid.set(col * W + row, v);
    }

    fn width(&self) -> (w: usize) {
        W
    }

    fn height(&self) -> (h: usize) {
        H
    }
}

impl<const W: usize, const H: usize> std::ops::Index<usize> for CanvasGrid<W, H> {
    type Output = [usize];

    /// The cells at `col == index`, in the order of `row`.
    fn index(&self, index: usize) -> (cells: &[usize])
        ensures
            cells@ == self.model().cells.subrange(index * W, index * W + W),
    {
        proof {
            assert(self.grid.len() == W * H);
            assert(index * W + W <= W * H) by (nonlinear_arith)
                requires
                    index < H,
            ;
        }
        &self.grid[index * W..index * W + W]
    }
}

impl<const W: usize, const H: usize> vstd::std_specs::core::IndexSpecImpl<usize> for CanvasGrid<W, H> {
    /// Only a well-formed grid can be read, at a `col` that it has.
    open spec fn index_req(&self, index: &usize) -> bool {
        self.model().wf() && *index < H
    }
}

impl<const W: usize, const H: usize> Default for CanvasGrid<W, H> {
    /// A grid whose cells all hold index 0, where such a grid can be had.
    fn default() -> (g: Self)
        ensures
            W * H <= usize::MAX ==> g.model() == GridModel::filled(W as nat, H as nat, 0usize),
    {
        match W.checked_mul(H) {
            Some(_) => CanvasGrid::new(),
            None => CanvasGrid { grid: Vec::new() },
        }
    }
}

/// The number of indices in the half-open range from `range.0` to `range.1`.
pub open spec fn span(range: (usize, usize)) -> nat {
    if range.0 <= range.1 {
        (range.1 - range.0) as nat
    } else {
        0
    }
}

/// Whether the rectangle that two ranges span lies on a grid and is no larger
/// than `w` by `h`. A rectangle without positions always does.
pub open spec fn rectangle_fits(
    m: GridModel<usize>,
    row_range: (usize, usize),
    col_range: (usize, usize),
    w: nat,
    h: nat,
) -> bool {
    span(row_range) > 0 && span(col_range) > 0 ==> span(row_range) <= w && span(col_range) <= h
        && row_range.1 <= m.width && col_range.1 <= m.height
}

/// Copies a rectangle of `grid` into a fresh `W` by `H` grid.
///
/// `row_range` holds the first `row` of the rectangle and the one after its
/// last, `col_range` the same for `col`. Position `(0, 0)` of the result
/// holds the cell at `(row_range.0, col_range.0)` of `grid`, and cells of the
/// result that the rectangle does not reach hold index 0.
pub fn subgrid<const W: usize, const H: usize>(
    grid: &(impl Grid<usize> + ?Sized),
    row_range: (usize, usize),
    col_range: (usize, usize),
) -> (ret: CanvasGrid<W, H>)
    requires
        W * H <= usize::MAX,
        grid.model().wf(),
        rectangle_fits(grid.model(), row_range, col_range, W as nat, H as nat),
    ensures
        ret.model().wf(),
        forall|r: int, c: int|
            0 <= r < W && 0 <= c < H ==> #[trigger] ret.model().at(r, c) == (if r < span(row_range)
                && c < span(col_range) {
                grid.model().at(row_range.0 + r, col_range.0 + c)
            } else {
                0
            }),
{
    let mut ret = CanvasGrid::<W, H>::new();
    let ghost src = grid.model();
    assert forall|r: int, c: int| 0 <= r < W && 0 <= c < H implies #[trigger] ret.model().at(r, c)
        == 0 by {
        lemma_linear_in_range(W as nat, H as nat, r, c);
    }
    let mut ret_row: usize = 0;
    let mut row: usize = row_range.0;
    while row < row_range.1
        invariant
            grid.model() == src,
            src.wf(),
            rectangle_fits(src, row_range, col_range, W as nat, H as nat),
            ret.model().wf(),
            row == row_range.0 + ret_row,
            ret_row <= span(row_range),
            forall|r: int, c: int|
                0 <= r < W && 0 <= c < H ==> #[trigger] ret.model().at(r, c) == (if r < ret_row && c
                    < span(col_range) {
                    src.at(row_range.0 + r, col_range.0 + c)
                } else {
                    0
                }),
        decreases row_range.1 - row,
    {
        let mut ret_col: usize = 0;
        let mut col: usize = col_range.0;
        while col < col_range.1
            invariant
                grid.model() == src,
                src.wf(),
                rectangle_fits(src, row_range, col_range, W as nat, H as nat),
                ret.model().wf(),
                row == row_range.0 + ret_row,
                row < row_range.1,
                col == col_range.0 + ret_col,
                ret_col <= span(col_range),
                forall|r: int, c: int|
                    0 <= r < W && 0 <= c < H ==> #[trigger] ret.model().at(r, c) == (if (r < ret_row
                        && c < span(col_range)) || (r == ret_row && c < ret_col) {
                        src.at(row_range.0 + r, col_range.0 + c)
                    } else {
                        0
                    }),
            decreases col_range.1 - col,
        {
            let v = grid.get(row, col);
            let ghost before = ret.model();
            ret.set(ret_row, ret_col, v);
            proof {
                lemma_put_at(before, ret_row as int, ret_col as int, v);
            }
            ret_col += 1;
            col += 1;
        }
        ret_row += 1;
        row += 1;
    }
    ret
}

} // verus!
