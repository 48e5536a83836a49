use vstd::prelude::*;

use crate::counting::zeros;
use crate::layer::zero_vec;
use crate::ternary::Ternary;

verus! {

/// Whether `(x, y)` lies on a `width` by `height` grid.
pub open spec fn on_grid(width: int, height: int, x: int, y: int) -> bool {
    0 <= x < width && 0 <= y < height
}

/// Where cell `(x, y)` lies in the row-major grid.
pub open spec fn cell_index(width: int, x: int, y: int) -> int {
    y * width + x
}

/// Cell `(x, y)`, if it lies on the grid, is stored inside `grid`.
pub open spec fn stored(width: int, height: int, grid: Seq<Ternary>, x: int, y: int) -> bool {
    on_grid(width, height, x, y) ==> cell_index(width, x, y) < grid.len()
}

/// The value of cell `(x, y)`, or `None` off the grid.
pub open spec fn cell(width: int, height: int, grid: Seq<Ternary>, x: int, y: int) -> Option<
    Ternary,
> {
    if on_grid(width, height, x, y) {
        Some(grid[cell_index(width, x, y)])
    } else {
        None
    }
}

/// The grid after writing `value` into cell `(x, y)`; off the grid nothing changes.
pub open spec fn written(
    width: int,
    height: int,
    grid: Seq<Ternary>,
    x: int,
    y: int,
    value: Ternary,
) -> Seq<Ternary> {
    if on_grid(width, height, x, y) {
        grid.update(cell_index(width, x, y), value)
    } else {
        grid
    }
}

/// The neighbour at `(x, y)` with its value, as a one-element list, or nothing off the grid.
pub open spec fn neighbor_at(width: int, height: int, grid: Seq<Ternary>, x: int, y: int) -> Seq<
    (usize, usize, Ternary),
> {
    if on_grid(width, height, x, y) {
        seq![(x as usize, y as usize, grid[cell_index(width, x, y)])]
    } else {
        seq![]
    }
}

/// The 4-connected neighbours of `(x, y)` that lie on the grid: left, right, up, down.
pub open spec fn neighbors_of(width: int, height: int, grid: Seq<Ternary>, x: int, y: int) -> Seq<
    (usize, usize, Ternary),
> {
    neighbor_at(width, height, grid, x - 1, y) + neighbor_at(width, height, grid, x + 1, y)
        + neighbor_at(width, height, grid, x, y - 1) + neighbor_at(width, height, grid, x, y + 1)
}

/// Sum of the column indices, sum of the row indices, and count of the `Pos` cells among
/// the first `cols` cells of row `y`.
pub open spec fn row_moments(grid: Seq<Ternary>, width: int, y: int, cols: nat) -> (int, int, int)
    decreases cols,
{
    if cols == 0 {
        (0, 0, 0)
    } else {
        let p = row_moments(grid, width, y, (cols - 1) as nat);
        let x = cols - 1;
        if grid[cell_index(width, x, y)] == Ternary::Pos {
            (p.0 + x, p.1 + y, p.2 + 1)
        } else {
            p
        }
    }
}

/// Sum of the column indices, sum of the row indices, and count of the `Pos` cells in
/// the first `rows` rows of a grid `width` cells wide.
pub open spec fn grid_moments(grid: Seq<Ternary>, width: int, rows: nat) -> (int, int, int)
    decreases rows,
{
    if rows == 0 {
        (0, 0, 0)
    } else {
        let p = grid_moments(grid, width, (rows - 1) as nat);
        let r = row_moments(grid, width, rows - 1, width as nat);
        (p.0 + r.0, p.1 + r.1, p.2 + r.2)
    }
}

proof fn lemma_row_moments_grow(grid: Seq<Ternary>, width: int, y: int, c1: nat, c2: nat)
    requires
        y >= 0,
        c1 <= c2,
    ensures
        0 <= row_moments(grid, width, y, c1).0 <= row_moments(grid, width, y, c2).0,
        0 <= row_moments(grid, width, y, c1).1 <= row_moments(grid, width, y, c2).1,
        0 <= row_moments(grid, width, y, c1).2 <= row_moments(grid, width, y, c2).2,
        row_moments(grid, width, y, c2).2 <= c2,
    decreases c2,
{
    if c2 > 0 {
        if c1 == c2 {
            lemma_row_moments_grow(grid, width, y, (c2 - 1) as nat, (c2 - 1) as nat);
        } else {
            lemma_row_moments_grow(grid, width, y, c1, (c2 - 1) as nat);
        }
    }
}

proof fn lemma_grid_moments_grow(grid: Seq<Ternary>, width: nat, r1: nat, r2: nat)
    requires
        r1 <= r2,
    ensures
        0 <= grid_moments(grid, width as int, r1).0 <= grid_moments(grid, width as int, r2).0,
        0 <= grid_moments(grid, width as int, r1).1 <= grid_moments(grid, width as int, r2).1,
        0 <= grid_moments(grid, width as int, r1).2 <= grid_moments(grid, width as int, r2).2,
        grid_moments(grid, width as int, r2).2 <= r2 * width,
    decreases r2,
{
    if r2 > 0 {
        lemma_row_moments_grow(grid, width as int, r2 - 1, width, width);
        if r1 == r2 {
            lemma_grid_moments_grow(grid, width, (r2 - 1) as nat, (r2 - 1) as nat);
        } else {
            lemma_grid_moments_grow(grid, width, r1, (r2 - 1) as nat);
        }
        assert((r2 - 1) * width + width == r2 * width) by (nonlinear_arith);
    }
}

/// The moments gathered up to cell `(x, y)` in row-major order are at most those of the
/// first `rows` rows, for `y < rows`.
proof fn lemma_partial_below_total(grid: Seq<Ternary>, width: nat, rows: nat, y: nat, x: nat)
    requires
        y < rows,
        x <= width,
    ensures
        grid_moments(grid, width as int, y).0 + row_moments(grid, width as int, y as int, x).0
            <= grid_moments(grid, width as int, rows).0,
        grid_moments(grid, width as int, y).1 + row_moments(grid, width as int, y as int, x).1
            <= grid_moments(grid, width as int, rows).1,
        grid_moments(grid, width as int, y).2 + row_moments(grid, width as int, y as int, x).2
            <= grid_moments(grid, width as int, rows).2,
{
    lemma_row_moments_grow(grid, width as int, y as int, x, width);
    lemma_grid_moments_grow(grid, width, (y + 1) as nat, rows);
}

/// Row `r` and row `y` are distinct rows of a grid `width` wide, so no cell of one is a
/// cell of the other.
proof fn lemma_rows_disjoint(width: int, r: int, c: int, y: int, x: int)
    requires
        0 <= r,
        0 <= y,
        r != y,
        0 <= c < width,
        0 <= x < width,
    ensures
        cell_index(width, c, r) != cell_index(width, x, y),
{
    if r < y {
        assert(r * width + c < y * width + x) by (nonlinear_arith)
            requires
                0 <= r < y,
                0 <= c < width,
                0 <= x,
        ;
    } else {
        assert(y * width + x < r * width + c) by (nonlinear_arith)
            requires
                0 <= y < r,
                0 <= x < width,
                0 <= c,
        ;
    }
}

proof fn lemma_row_moments_add_pos(
    grid: Seq<Ternary>,
    width: nat,
    r: nat,
    cols: nat,
    x: nat,
    y: nat,
)
    requires
        cols <= width,
        r * width + cols <= grid.len(),
        x < width,
        cell_index(width as int, x as int, y as int) < grid.len(),
        grid[cell_index(width as int, x as int, y as int)] != Ternary::Pos,
    ensures
        ({
            let g2 = grid.update(cell_index(width as int, x as int, y as int), Ternary::Pos);
            let before = row_moments(grid, width as int, r as int, cols);
            let after = row_moments(g2, width as int, r as int, cols);
            if r == y && x < cols {
                after == (before.0 + x, before.1 + y, before.2 + 1)
            } else {
                after == before
            }
        }),
    decreases cols,
{
    if cols > 0 {
        lemma_row_moments_add_pos(grid, width, r, (cols - 1) as nat, x, y);
        let c = cols - 1;
        assert(0 <= r * width) by (nonlinear_arith);
        let g2 = grid.update(cell_index(width as int, x as int, y as int), Ternary::Pos);
        let ic = cell_index(width as int, c, r as int);
        if r != y {
            lemma_rows_disjoint(width as int, r as int, c, y as int, x as int);
            assert(g2[ic] == grid[ic]);
        } else if c != x {
            assert(ic != cell_index(width as int, x as int, y as int));
            assert(g2[ic] == grid[ic]);
        } else {
            assert(g2[ic] == Ternary::Pos);
        }
    }
}

/// A grid none of whose first `rows` rows holds a `Pos` cell has all moments zero.
pub proof fn lemma_moments_of_blank(grid: Seq<Ternary>, width: nat, rows: nat)
    requires
        forall|k: int| 0 <= k < rows * width ==> #[trigger] grid[k] != Ternary::Pos,
    ensures
        grid_moments(grid, width as int, rows) == (0int, 0int, 0int),
    decreases rows,
{
    if rows > 0 {
        assert((rows - 1) * width <= rows * width) by (nonlinear_arith);
        lemma_moments_of_blank(grid, width, (rows - 1) as nat);
        lemma_row_blank(grid, width, (rows - 1) as nat, width, rows);
    }
}

proof fn lemma_row_blank(grid: Seq<Ternary>, width: nat, r: nat, cols: nat, rows: nat)
    requires
        cols <= width,
        r < rows,
        forall|k: int| 0 <= k < rows * width ==> #[trigger] grid[k] != Ternary::Pos,
    ensures
        row_moments(grid, width as int, r as int, cols) == (0int, 0int, 0int),
    decreases cols,
{
    if cols > 0 {
        lemma_row_blank(grid, width, r, (cols - 1) as nat, rows);
        let c = cols - 1;
        assert(0 <= r * width + c < rows * width) by (nonlinear_arith)
            requires
                0 <= c < width,
                0 <= r < rows,
        ;
        assert(grid[cell_index(width as int, c, r as int)] != Ternary::Pos);
    }
}

/// Turning one non-`Pos` cell `(x, y)` of the first `rows` rows into `Pos` adds its
/// column to the column sum, its row to the row sum, and one to the count. With the
/// blank grid's zero moments, this fixes the moments of every grid.
pub proof fn lemma_moments_add_pos(grid: Seq<Ternary>, width: nat, rows: nat, x: nat, y: nat)
    requires
        x < width,
        y < rows,
        rows * width <= grid.len(),
        cell_index(width as int, x as int, y as int) < grid.len(),
        grid[cell_index(width as int, x as int, y as int)] != Ternary::Pos,
    ensures
        ({
            let g2 = grid.update(cell_index(width as int, x as int, y as int), Ternary::Pos);
            let before = grid_moments(grid, width as int, rows);
            grid_moments(g2, width as int, rows) == (before.0 + x, before.1 + y, before.2 + 1)
        }),
    decreases rows,
{
    let g2 = grid.update(cell_index(width as int, x as int, y as int), Ternary::Pos);
    let r = (rows - 1) as nat;
    assert(r * width + width == rows * width) by (nonlinear_arith)
        requires
            r == rows - 1,
    ;
    lemma_row_moments_add_pos(grid, width, r, width, x, y);
    if r == y {
        lemma_moments_unchanged_below(grid, width, r, x, y);
    } else {
        lemma_moments_add_pos(grid, width, r, x, y);
    }
}

proof fn lemma_moments_unchanged_below(grid: Seq<Ternary>, width: nat, rows: nat, x: nat, y: nat)
    requires
        x < width,
        rows <= y,
        rows * width <= grid.len(),
        cell_index(width as int, x as int, y as int) < grid.len(),
        grid[cell_index(width as int, x as int, y as int)] != Ternary::Pos,
    ensures
        grid_moments(
            grid.update(cell_index(width as int, x as int, y as int), Ternary::Pos),
            width as int,
            rows,
        ) == grid_moments(grid, width as int, rows),
    decreases rows,
{
    if rows > 0 {
        assert((rows - 1) * width + width == rows * width) by (nonlinear_arith);
        lemma_row_moments_add_pos(grid, width, (rows - 1) as nat, width, x, y);
        lemma_moments_unchanged_below(grid, width, (rows - 1) as nat, x, y);
    }
}

/// Where a neighbour lies from `(x, y)`: 0 to the left, 1 to the right, 2 above, 3 below.
pub open spec fn direction(e: (usize, usize, Ternary), x: int, y: int) -> int {
    if (e.0 as int) < x {
        0
    } else if (e.0 as int) > x {
        1
    } else if (e.1 as int) < y {
        2
    } else {
        3
    }
}

/// A cell reads as `Some` exactly when both coordinates are inside the grid, and then it
/// reads the grid at row-major position `y * width + x`.
pub proof fn lemma_cell_rule(width: int, height: int, grid: Seq<Ternary>, x: int, y: int)
    ensures
        (0 <= x < width && 0 <= y < height) ==> cell(width, height, grid, x, y) == Some(
            grid[y * width + x],
        ),
        !(0 <= x < width && 0 <= y < height) ==> cell(width, height, grid, x, y) is None,
        (0 <= x < width && 0 <= y < height) ==> written(width, height, grid, x, y, Ternary::Pos)
            == grid.update(y * width + x, Ternary::Pos),
{
}

/// Every neighbour listed lies on the grid one step from `(x, y)` and carries the value
/// of its cell; the list holds one entry for each of the four neighbouring positions that
/// lie on the grid, listed left, right, above, below.
pub proof fn lemma_neighbors_rule(width: usize, height: usize, grid: Seq<Ternary>, x: int, y: int)
    requires
        stored(width as int, height as int, grid, x - 1, y),
        stored(width as int, height as int, grid, x + 1, y),
        stored(width as int, height as int, grid, x, y - 1),
        stored(width as int, height as int, grid, x, y + 1),
    ensures
        ({
            let n = neighbors_of(width as int, height as int, grid, x, y);
            &&& forall|k: int|
                0 <= k < n.len() ==> {
                    &&& on_grid(width as int, height as int, (#[trigger] n[k]).0 as int, n[k].1 as int)
                    &&& (if n[k].0 >= x { n[k].0 - x } else { x - n[k].0 }) + (if n[k].1 >= y {
                        n[k].1 - y
                    } else {
                        y - n[k].1
                    }) == 1
                    &&& cell(width as int, height as int, grid, n[k].0 as int, n[k].1 as int)
                        == Some(n[k].2)
                }
            &&& forall|k1: int, k2: int|
                0 <= k1 < k2 < n.len() ==> direction(#[trigger] n[k1], x, y) < direction(
                    #[trigger] n[k2],
                    x,
                    y,
                )
            &&& n.len() == (if on_grid(width as int, height as int, x - 1, y) { 1int } else { 0 })
                + (if on_grid(width as int, height as int, x + 1, y) { 1int } else { 0 }) + (
            if on_grid(width as int, height as int, x, y - 1) {
                1int
            } else {
                0
            }) + (if on_grid(width as int, height as int, x, y + 1) { 1int } else { 0 })
        }),
{
    let a = neighbor_at(width as int, height as int, grid, x - 1, y);
    let b = neighbor_at(width as int, height as int, grid, x + 1, y);
    let c = neighbor_at(width as int, height as int, grid, x, y - 1);
    let d = neighbor_at(width as int, height as int, grid, x, y + 1);
    let n = neighbors_of(width as int, height as int, grid, x, y);
    assert(n == a + b + c + d);
    assert forall|k: int| 0 <= k < n.len() implies {
        &&& on_grid(width as int, height as int, (#[trigger] n[k]).0 as int, n[k].1 as int)
        &&& (if n[k].0 >= x { n[k].0 - x } else { x - n[k].0 }) + (if n[k].1 >= y {
            n[k].1 - y
        } else {
            y - n[k].1
        }) == 1
        &&& cell(width as int, height as int, grid, n[k].0 as int, n[k].1 as int) == Some(n[k].2)
    } by {
        if k < a.len() {
            assert(n[k] == a[k]);
        } else if k < a.len() + b.len() {
            assert(n[k] == b[k - a.len()]);
        } else if k < a.len() + b.len() + c.len() {
            assert(n[k] == c[k - a.len() - b.len()]);
        } else {
            assert(n[k] == d[k - a.len() - b.len() - c.len()]);
        }
    }
}

/// Topographic map of the cortical surface: a row-major grid of activity.
#[derive(Clone, Debug)]
pub struct CorticalMap {
    pub width: usize,
    pub height: usize,
    pub grid: Vec<Ternary>,
}

impl CorticalMap {
    /// Cell `(x, y)`, if it lies on the grid, is stored inside the grid's vector.
    pub open spec fn stores(&self, x: int, y: int) -> bool {
        stored(self.width as int, self.height as int, self.grid@, x, y)
    }

    /// A `width` by `height` map of zeros.
    pub fn new(width: usize, height: usize) -> (r: Self)
        requires
            width * height <= usize::MAX,
        ensures
            r.width == width,
            r.height == height,
            r.grid@ == zeros((width * height) as nat),
    {
        CorticalMap { width, height, grid: zero_vec(width * height) }
    }

    /// The value of cell `(x, y)`, or `None` off the grid.
    pub fn get(&self, x: usize, y: usize) -> (r: Option<Ternary>)
        requires
            self.stores(x as int, y as int),
        ensures
            r == cell(self.width as int, self.height as int, self.grid@, x as int, y as int),
    {
        if x < self.width && y < self.height {
            assert(0 <= y * self.width) by (nonlinear_arith);
            assert(y * self.width + x < self.grid.len());
            Some(self.grid[y * self.width + x])
        } else {
            None
        }
    }

    /// Writes `value` into cell `(x, y)`; returns whether the cell lies on the grid.
    pub fn set(&mut self, x: usize, y: usize, value: Ternary) -> (r: bool)
        requires
            old(self).stores(x as int, y as int),
        ensures
            r == on_grid(old(self).width as int, old(self).height as int, x as int, y as int),
            final(self).grid@ == written(
                old(self).width as int,
                old(self).height as int,
                old(self).grid@,
                x as int,
                y as int,
                value,
            ),
            final(self).width == old(self).width,
            final(self).height == old(self).height,
    {
        if x < self.width && y < self.height {
            assert(0 <= y * self.width) by (nonlinear_arith);
            assert(y * self.width + x < self.grid.len());
            self.grid.set(y * self.width + x, value);
            true
        } else {
            false
        }
    }

    /// Appends the neighbour at `(nx, ny)` to `result` if it lies on the grid.
    fn push_neighbor(&self, result: &mut Vec<(usize, usize, Ternary)>, nx: i32, ny: i32)
        requires
            self.stores(nx as int, ny as int),
        ensures
            final(result)@ == old(result)@ + neighbor_at(
                self.width as int,
                self.height as int,
                self.grid@,
                nx as int,
                ny as int,
            ),
    {
        if nx >= 0 && ny >= 0 {
            let ux = nx as usize;
            let uy = ny as usize;
            if ux < self.width && uy < self.height {
                assert(0 <= uy * self.width) by (nonlinear_arith);
                assert(uy * self.width + ux < self.grid.len());
                result.push((ux, uy, self.grid[uy * self.width + ux]));
            }
        }
        assert(final(result)@ =~= old(result)@ + neighbor_at(
            self.width as int,
            self.height as int,
            self.grid@,
            nx as int,
            ny as int,
        ));
    }

    /// The 4-connected neighbours of `(x, y)` that lie on the grid, with their values,
    /// in the order left, right, up, down. The coordinates are taken as `i32`.
    pub fn neighbors(&self, x: usize, y: usize) -> (r: Vec<(usize, usize, Ternary)>)
        requires
            i32::MIN < (x as i32) < i32::MAX,
            i32::MIN < (y as i32) < i32::MAX,
            self.stores(x as i32 - 1, y as i32 as int),
            self.stores(x as i32 + 1, y as i32 as int),
            self.stores(x as i32 as int, y as i32 - 1),
            self.stores(x as i32 as int, y as i32 + 1),
        ensures
            r@ == neighbors_of(
                self.width as int,
                self.height as int,
                self.grid@,
                x as i32 as int,
                y as i32 as int,
            ),
    {
        let xi = x as i32;
        let yi = y as i32;
        let mut result: Vec<(usize, usize, Ternary)> = Vec::new();
        self.push_neighbor(&mut result, xi - 1, yi);
        self.push_neighbor(&mut result, xi + 1, yi);
        self.push_neighbor(&mut result, xi, yi - 1);
        self.push_neighbor(&mut result, xi, yi + 1);
        assert(result@ =~= neighbors_of(
            self.width as int,
            self.height as int,
            self.grid@,
            xi as int,
            yi as int,
        ));
        result
    }

    /// The sums of the column and row indices of the `Pos` cells, and their count: what
    /// the center of mass of the positive activations is made of. `None` when a sum does
    /// not fit in an `i64`.
    pub fn positive_moments(&self) -> (r: Option<(i64, i64, u64)>)
        requires
            self.width * self.height <= self.grid@.len() <= i64::MAX,
        ensures
            ({
                let m = grid_moments(self.grid@, self.width as int, self.height as nat);
                &&& r is None <==> m.0 > i64::MAX || m.1 > i64::MAX
                &&& r matches Some(t) ==> t.0 == m.0 && t.1 == m.1 && t.2 == m.2
            }),
    {
        let ghost g = self.grid@;
        let ghost w = self.width as nat;
        let ghost h = self.height as nat;
        let mut sx: i64 = 0;
        let mut sy: i64 = 0;
        let mut c: u64 = 0;
        let mut y: usize = 0;
        while y < self.height
            invariant
                g == self.grid@,
                w == self.width,
                h == self.height,
                w * h <= g.len() <= i64::MAX,
                y <= h,
                sx == grid_moments(g, w as int, y as nat).0,
                sy == grid_moments(g, w as int, y as nat).1,
                c == grid_moments(g, w as int, y as nat).2,
            decreases h - y,
        {
            assert(y * w + w <= w * h) by (nonlinear_arith)
                requires
                    y < h,
            ;
            let mut x: usize = 0;
            while x < self.width
                invariant
                    g == self.grid@,
                    w == self.width,
                    h == self.height,
                    w * h <= g.len() <= i64::MAX,
                    y < h,
                    y * w + w <= w * h,
                    x <= w,
                    sx == grid_moments(g, w as int, y as nat).0 + row_moments(
                        g,
                        w as int,
                        y as int,
                        x as nat,
                    ).0,
                    sy == grid_moments(g, w as int, y as nat).1 + row_moments(
                        g,
                        w as int,
                        y as int,
                        x as nat,
                    ).1,
                    c == grid_moments(g, w as int, y as nat).2 + row_moments(
                        g,
                        w as int,
                        y as int,
                        x as nat,
                    ).2,
                decreases w - x,
            {
                proof {
                    lemma_partial_below_total(g, w, h, y as nat, (x + 1) as nat);
                    lemma_grid_moments_grow(g, w, h, h);
                    assert(h * w == w * h) by (nonlinear_arith);
                    assert(0 <= y * w) by (nonlinear_arith);
                    assert(y <= y * w) by (nonlinear_arith)
                        requires
                            x < w,
                    ;
                    assert(y * w + x < self.grid.len());
                }
                if self.grid[y * self.width + x] == Ternary::Pos {
                    let xi = x as i64;
                    let yi = y as i64;
                    match sx.checked_add(xi) {
                        Some(v) => {
                            sx = v;
                        },
                        None => {
                            return None;
                        },
                    }
                    match sy.checked_add(yi) {
                        Some(v) => {
                            sy = v;
                        },
                        None => {
                            return None;
                        },
                    }
                    c = c + 1;
                }
                x = x + 1;
            }
            y = y + 1;
        }
        Some((sx, sy, c))
    }

    /// Sets every cell to zero, `width * height` of them.
    pub fn clear(&mut self)
        requires
            old(self).width * old(self).height <= usize::MAX,
        ensures
            final(self).grid@ == zeros((old(self).width * old(self).height) as nat),
            final(self).width == old(self).width,
            final(self).height == old(self).height,
    {
        self.grid = zero_vec(self.width * self.height);
    }
}

/// Reading a cell after writing it gives what was written, and every other cell of the
/// grid reads as before.
pub proof fn lemma_read_after_write(
    width: nat,
    height: nat,
    grid: Seq<Ternary>,
    x: int,
    y: int,
    value: Ternary,
    x2: int,
    y2: int,
)
    requires
        stored(width as int, height as int, grid, x, y),
        stored(width as int, height as int, grid, x2, y2),
    ensures
        cell(width as int, height as int, written(width as int, height as int, grid, x, y, value), x, y)
            == if on_grid(width as int, height as int, x, y) {
            Some(value)
        } else {
            None::<Ternary>
        },
        (x2 != x || y2 != y) ==> cell(
            width as int,
            height as int,
            written(width as int, height as int, grid, x, y, value),
            x2,
            y2,
        ) == cell(width as int, height as int, grid, x2, y2),
{
    if on_grid(width as int, height as int, x, y) && on_grid(width as int, height as int, x2, y2)
        && (x2 != x || y2 != y) {
        if y == y2 {
            assert(cell_index(width as int, x, y) != cell_index(width as int, x2, y2));
        } else if y < y2 {
            assert(y * width + x < y2 * width + x2) by (nonlinear_arith)
                requires
                    0 <= x < width,
                    0 <= x2,
                    0 <= y < y2,
            ;
        } else {
            assert(y2 * width + x2 < y * width + x) by (nonlinear_arith)
                requires
                    0 <= x2 < width,
                    0 <= x,
                    0 <= y2 < y,
            ;
        }
    }
}

} // verus!
