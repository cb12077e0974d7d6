//! A uniform grid of cells over the play field, so that a collision check
//! looks only at the few things stored near a point.
//!
//! The grid stores `usize` handles; the caller keeps what each handle stands
//! for. Cell coordinates come from positions in the caller's units; the grid
//! itself is pure integer bookkeeping.
use vstd::prelude::*;

use smallvec::SmallVec;

verus! {

/// The handles stored in one cell, in insertion order, kept inline for the
/// first four.
#[verifier::external_body]
pub struct GridCell {
    entries: SmallVec<[usize; 4]>,
}

/// The handles a cell holds, in insertion order.
pub uninterp spec fn grid_cell_entries(cell: GridCell) -> Seq<usize>;

impl View for GridCell {
    type V = Seq<usize>;

    open spec fn view(&self) -> Seq<usize> {
        grid_cell_entries(*self)
    }
}

impl GridCell {
    /// Calls `SmallVec::new`. Trusted: a new `SmallVec` holds nothing.
    #[verifier::external_body]
    pub fn new() -> (c: GridCell)
        ensures
            grid_cell_entries(c) == Seq::<usize>::empty(),
    {
        GridCell { entries: SmallVec::new() }
    }

    /// Calls `SmallVec::push`. Trusted: the value is appended at the end and
    /// the earlier values stay in place. `SmallVec` panics when the new
    /// capacity overflows (more elements than memory can hold); that bound is
    /// not stated here.
    #[verifier::external_body]
    pub fn push(&mut self, entry: usize)
        ensures
            grid_cell_entries(*final(self)) == grid_cell_entries(*old(self)).push(entry),
    {
        self.entries.push(entry);
    }

    /// Calls `SmallVec::clear`. Trusted: the vector is emptied.
    #[verifier::external_body]
    pub fn clear(&mut self)
        ensures
            grid_cell_entries(*final(self)) == Seq::<usize>::empty(),
    {
        self.entries.clear();
    }

    /// Calls `SmallVec::is_empty`. Trusted: true exactly when the length is
    /// zero.
    #[verifier::external_body]
    pub fn is_empty(&self) -> (b: bool)
        ensures
            b == (grid_cell_entries(*self).len() == 0),
    {
        self.entries.is_empty()
    }

    /// Calls `SmallVec::as_slice`. Trusted: the slice shows the stored
    /// values in order.
    #[verifier::external_body]
    pub fn as_slice(&self) -> (s: &[usize])
        ensures
            s@ == grid_cell_entries(*self),
    {
        self.entries.as_slice()
    }
}

/// The cell at column `x`, row `y`, or nothing outside the grid.
pub open spec fn cell_at(cells: Seq<Seq<usize>>, cols: nat, rows: nat, x: int, y: int) -> Seq<usize> {
    if 0 <= x < cols && 0 <= y < rows {
        cells[y * cols + x]
    } else {
        Seq::empty()
    }
}

/// The handles in column `x`, rows `y_lo` through `y_hi`, row by row.
pub open spec fn column_scan(
    cells: Seq<Seq<usize>>,
    cols: nat,
    rows: nat,
    x: int,
    y_lo: int,
    y_hi: int,
) -> Seq<usize>
    decreases y_hi + 1 - y_lo,
{
    if y_hi < y_lo {
        Seq::empty()
    } else {
        column_scan(cells, cols, rows, x, y_lo, y_hi - 1) + cell_at(cells, cols, rows, x, y_hi)
    }
}

/// The handles in the block of columns `x_lo..=x_hi` and rows `y_lo..=y_hi`,
/// column by column and, within a column, row by row.
pub open spec fn area_scan(
    cells: Seq<Seq<usize>>,
    cols: nat,
    rows: nat,
    x_lo: int,
    x_hi: int,
    y_lo: int,
    y_hi: int,
) -> Seq<usize>
    decreases x_hi + 1 - x_lo,
{
    if x_hi < x_lo {
        Seq::empty()
    } else {
        area_scan(cells, cols, rows, x_lo, x_hi - 1, y_lo, y_hi) + column_scan(
            cells,
            cols,
            rows,
            x_hi,
            y_lo,
            y_hi,
        )
    }
}

/// The flat index of column `x`, row `y`, if it lies in the grid.
pub open spec fn spec_cell_index(cols: nat, rows: nat, x: int, y: int) -> Option<nat> {
    if 0 <= x < cols && 0 <= y < rows {
        Some((y * cols + x) as nat)
    } else {
        None
    }
}

/// Handles sorted into cells; a record of which cells hold anything lets the
/// grid be emptied without visiting every cell.
pub struct SpatialGrid {
    cells: Vec<GridCell>,
    touched: Vec<usize>,
    cols: usize,
    rows: usize,
}

impl SpatialGrid {
    /// The grid's bookkeeping is consistent: the cells cover the grid, and
    /// every cell that holds anything is on the record of touched cells.
    pub closed spec fn wf(self) -> bool {
        &&& self.cols * self.rows <= self.cells@.len()
        &&& forall|i: int|
            0 <= i < self.cells@.len() && (#[trigger] self.cells@[i])@.len() > 0
                ==> self.touched@.contains(i as usize)
    }

    /// What each cell holds.
    pub closed spec fn cells_view(self) -> Seq<Seq<usize>> {
        self.cells@.map_values(|c: GridCell| c@)
    }

    pub closed spec fn spec_cols(self) -> nat {
        self.cols as nat
    }

    pub closed spec fn spec_rows(self) -> nat {
        self.rows as nat
    }

    /// Every cell of the grid is empty.
    pub open spec fn is_empty_grid(self) -> bool {
        forall|i: int| 0 <= i < self.cells_view().len() ==> #[trigger] self.cells_view()[i]
            == Seq::<usize>::empty()
    }

    /// The handles around column `cx`, row `cy` within `radius` cells.
    pub open spec fn spec_neighborhood(self, cx: int, cy: int, radius: int) -> Seq<usize> {
        area_scan(
            self.cells_view(),
            self.spec_cols(),
            self.spec_rows(),
            cx - radius,
            cx + radius,
            cy - radius,
            cy + radius,
        )
    }

    /// An empty grid of no cells; the first `rebuild` gives it a size.
    pub fn new() -> (g: SpatialGrid)
        ensures
            g.wf(),
            g.spec_cols() == 0,
            g.spec_rows() == 0,
            g.cells_view() == Seq::<Seq<usize>>::empty(),
    {
        let g = SpatialGrid { cells: Vec::new(), touched: Vec::new(), cols: 0, rows: 0 };
        assert(g.cells_view() =~= Seq::<Seq<usize>>::empty());
        g
    }

    pub fn cols(&self) -> (c: usize)
        ensures
            c == self.spec_cols(),
    {
        self.cols
    }

    pub fn rows(&self) -> (r: usize)
        ensures
            r == self.spec_rows(),
    {
        self.rows
    }

    /// Resizes the grid to `cols` by `rows` cells and empties every cell.
    /// Cells are only ever added, never dropped.
    pub fn rebuild(&mut self, cols: usize, rows: usize)
        requires
            old(self).wf(),
            cols * rows <= usize::MAX,
        ensures
            final(self).wf(),
            final(self).spec_cols() == cols,
            final(self).spec_rows() == rows,
            final(self).cells_view().len() == if old(self).cells_view().len() < cols * rows {
                (cols * rows) as nat
            } else {
                old(self).cells_view().len()
            },
            final(self).is_empty_grid(),
    {
        let total = cols * rows;
        let old_len = self.cells.len();
        while self.cells.len() < total
            invariant
                old_len <= self.cells@.len() <= if old_len < total { total } else { old_len },
            decreases total - self.cells@.len(),
        {
            self.cells.push(GridCell::new());
        }
        let n = self.cells.len();
        let mut i: usize = 0;
        while i < n
            invariant
                n == self.cells@.len(),
                0 <= i <= n,
                forall|j: int| 0 <= j < i ==> (#[trigger] self.cells@[j])@ == Seq::<usize>::empty(),
            decreases n - i,
        {
            self.cells[i].clear();
            i = i + 1;
        }
        self.touched.clear();
        self.touched.reserve(64);
        self.cols = cols;
        self.rows = rows;
        assert forall|j: int| 0 <= j < self.cells_view().len() implies #[trigger] self.cells_view()[j]
            == Seq::<usize>::empty() by {
            assert(self.cells_view()[j] == self.cells@[j]@);
        }
    }

    /// Empties every cell that holds anything.
    pub fn clear(&mut self)
        requires
            old(self).wf(),
        ensures
            final(self).wf(),
            final(self).spec_cols() == old(self).spec_cols(),
            final(self).spec_rows() == old(self).spec_rows(),
            final(self).cells_view().len() == old(self).cells_view().len(),
            final(self).is_empty_grid(),
    {
        let ghost before = self.cells@;
        let n = self.touched.len();
        let mut k: usize = 0;
        while k < n
            invariant
                n == self.touched@.len(),
                self.touched@ == old(self).touched@,
                self.cols == old(self).cols,
                self.rows == old(self).rows,
                0 <= k <= n,
                self.cells@.len() == before.len(),
                forall|i: int|
                    0 <= i < before.len() ==> (#[trigger] self.cells@[i])@ == Seq::<usize>::empty() || (
                    self.cells@[i] == before[i] && forall|w: int|
                        0 <= w < k ==> #[trigger] self.touched@[w] != i as usize),
            decreases n - k,
        {
            let index = self.touched[k];
            if index < self.cells.len() {
                self.cells[index].clear();
            }
            k = k + 1;
        }
        proof {
            assert forall|i: int| 0 <= i < self.cells@.len() implies (#[trigger] self.cells@[i])@
                == Seq::<usize>::empty() by {
                if self.cells@[i]@ != Seq::<usize>::empty() {
                    assert(before[i] == old(self).cells@[i]);
                    let w = choose|w: int|
                        0 <= w < old(self).touched@.len() && old(self).touched@[w] == i as usize;
                    assert(self.touched@[w] == i as usize);
                }
            }
        }
        self.touched.clear();
        assert forall|j: int| 0 <= j < self.cells_view().len() implies #[trigger] self.cells_view()[j]
            == Seq::<usize>::empty() by {
            assert(self.cells_view()[j] == self.cells@[j]@);
        }
    }

    /// The flat index of column `cx`, row `cy`, if it lies in the grid.
    pub fn cell_index(&self, cx: i64, cy: i64) -> (index: Option<usize>)
        requires
            self.wf(),
        ensures
            index == match spec_cell_index(self.spec_cols(), self.spec_rows(), cx as int, cy as int) {
                Some(i) => Some(i as usize),
                None => None::<usize>,
            },
            index matches Some(i) ==> i < self.cells_view().len(),
            spec_cell_index(self.spec_cols(), self.spec_rows(), cx as int, cy as int) matches Some(i)
                ==> i < self.cells_view().len() && i <= usize::MAX,
    {
        let n = self.cells.len();
        if cx >= 0 && cy >= 0 && (cx as u64) < (self.cols as u64) && (cy as u64) < (self.rows as u64) {
            let x = cx as usize;
            let y = cy as usize;
            proof {
                vstd::arithmetic::mul::lemma_mul_inequality(y as int + 1, self.rows as int, self.cols as int);
                vstd::arithmetic::mul::lemma_mul_is_distributive_add_other_way(self.cols as int, y as int, 1);
                vstd::arithmetic::mul::lemma_mul_is_commutative(self.rows as int, self.cols as int);
                vstd::arithmetic::mul::lemma_mul_is_commutative(y as int, self.cols as int);
            }
            Some(y * self.cols + x)
        } else {
            None
        }
    }

    /// Stores `entry` in the cell at column `cx`, row `cy`; outside the grid
    /// nothing is stored.
    pub fn insert_center(&mut self, entry: usize, cx: i64, cy: i64)
        requires
            old(self).wf(),
        ensures
            final(self).wf(),
            final(self).spec_cols() == old(self).spec_cols(),
            final(self).spec_rows() == old(self).spec_rows(),
            spec_cell_index(old(self).spec_cols(), old(self).spec_rows(), cx as int, cy as int) matches Some(i)
                ==> i < old(self).cells_view().len(),
            match spec_cell_index(old(self).spec_cols(), old(self).spec_rows(), cx as int, cy as int) {
                Some(i) => final(self).cells_view() == old(self).cells_view().update(
                    i as int,
                    old(self).cells_view()[i as int].push(entry),
                ),
                None => final(self).cells_view() == old(self).cells_view(),
            },
    {
        if let Some(index) = self.cell_index(cx, cy) {
            let ghost before_cells = self.cells@;
            let ghost before_touched = self.touched@;
            let was_empty = self.cells[index].is_empty();
            if was_empty {
                self.touched.push(index);
            }
            self.cells[index].push(entry);
            proof {
                assert forall|i: int|
                    0 <= i < self.cells@.len() && (#[trigger] self.cells@[i])@.len() > 0 implies self.touched@.contains(
                    i as usize,
                ) by {
                    if i == index && was_empty {
                        assert(self.touched@[self.touched@.len() - 1] == index);
                    } else {
                        assert(before_cells[i]@.len() > 0);
                        let w = choose|w: int|
                            0 <= w < before_touched.len() && before_touched[w] == i as usize;
                        assert(self.touched@[w] == i as usize);
                    }
                }
            }
            assert(self.cells_view() =~= old(self).cells_view().update(
                index as int,
                old(self).cells_view()[index as int].push(entry),
            ));
        }
    }

    fn cell_entries(&self, x: i64, y: i64) -> (entries: Option<&[usize]>)
        requires
            self.wf(),
        ensures
            match spec_cell_index(self.spec_cols(), self.spec_rows(), x as int, y as int) {
                Some(i) => entries matches Some(s) && s@ == self.cells_view()[i as int],
                None => entries is None,
            },
    {
        match self.cell_index(x, y) {
            Some(index) => {
                assert(self.cells_view()[index as int] == self.cells@[index as int]@);
                Some(self.cells[index].as_slice())
            },
            None => None,
        }
    }

    /// The handles in the cell at column `cx`, row `cy`, or nothing outside
    /// the grid.
    pub fn get_cell(&self, cx: i32, cy: i32) -> (entries: Option<&[usize]>)
        requires
            self.wf(),
        ensures
            match spec_cell_index(self.spec_cols(), self.spec_rows(), cx as int, cy as int) {
                Some(i) => entries matches Some(s) && s@ == self.cells_view()[i as int],
                None => entries is None,
            },
    {
        self.cell_entries(cx as i64, cy as i64)
    }

    /// The handles in every cell within `radius` cells of column `cx`, row
    /// `cy`: column by column from the left, and within a column row by row
    /// from the bottom. A negative radius covers no cell and finds nothing.
    pub fn neighborhood(&self, cx: i32, cy: i32, radius: i32) -> (found: Vec<usize>)
        requires
            self.wf(),
        ensures
            found@ == self.spec_neighborhood(cx as int, cy as int, radius as int),
    {
        if radius < 0 {
            return Vec::new();
        }
        let ghost cells = self.cells_view();
        let ghost cols = self.spec_cols();
        let ghost rows = self.spec_rows();
        let x_lo = cx as i64 - radius as i64;
        let x_hi = cx as i64 + radius as i64;
        let y_lo = cy as i64 - radius as i64;
        let y_hi = cy as i64 + radius as i64;
        let mut found: Vec<usize> = Vec::new();
        let mut x = x_lo;
        while x <= x_hi
            invariant
                x_lo <= x <= x_hi + 1,
                x_hi <= i32::MAX + i32::MAX,
                y_lo <= y_hi,
                y_hi <= i32::MAX + i32::MAX,
                self.wf(),
                cells == self.cells_view(),
                cols == self.spec_cols(),
                rows == self.spec_rows(),
                found@ == area_scan(cells, cols, rows, x_lo as int, x - 1, y_lo as int, y_hi as int),
            decreases x_hi + 1 - x,
        {
            let mut y = y_lo;
            while y <= y_hi
                invariant
                    x_lo <= x <= x_hi,
                    y_lo <= y <= y_hi + 1,
                    y_hi <= i32::MAX + i32::MAX,
                    self.wf(),
                cells == self.cells_view(),
                    cols == self.spec_cols(),
                    rows == self.spec_rows(),
                    found@ == area_scan(cells, cols, rows, x_lo as int, x - 1, y_lo as int, y_hi as int)
                        + column_scan(cells, cols, rows, x as int, y_lo as int, y - 1),
                decreases y_hi + 1 - y,
            {
                let ghost prefix = found@;
                if let Some(entries) = self.cell_entries(x, y) {
                    let mut k: usize = 0;
                    while k < entries.len()
                        invariant
                            0 <= k <= entries@.len(),
                            found@ == prefix + entries@.take(k as int),
                        decreases entries@.len() - k,
                    {
                        found.push(entries[k]);
                        assert(entries@.take(k + 1) =~= entries@.take(k as int).push(entries@[k as int]));
                        k = k + 1;
                    }
                    assert(entries@.take(entries@.len() as int) =~= entries@);
                    assert(cell_at(cells, cols, rows, x as int, y as int) == entries@);
                } else {
                    assert(cell_at(cells, cols, rows, x as int, y as int) =~= Seq::<usize>::empty());
                }
                assert(found@ =~= area_scan(cells, cols, rows, x_lo as int, x - 1, y_lo as int, y_hi as int)
                    + column_scan(cells, cols, rows, x as int, y_lo as int, y as int));
                y = y + 1;
            }
            assert(found@ =~= area_scan(cells, cols, rows, x_lo as int, x as int, y_lo as int, y_hi as int));
            x = x + 1;
        }
        found
    }
}

impl Default for SpatialGrid {
    fn default() -> (g: SpatialGrid)
        ensures
            g.wf(),
            g.spec_cols() == 0,
            g.spec_rows() == 0,
            g.cells_view() == Seq::<Seq<usize>>::empty(),
    {
        SpatialGrid::new()
    }
}

/// A consistent grid has a cell for every column and row.
pub proof fn lemma_wf_grid_has_every_cell(grid: SpatialGrid)
    requires
        grid.wf(),
    ensures
        grid.spec_cols() * grid.spec_rows() <= grid.cells_view().len(),
{
}

/// Whatever a column holds in a row inside the scanned rows shows up in the
/// column's scan.
pub proof fn lemma_column_scan_covers(
    cells: Seq<Seq<usize>>,
    cols: nat,
    rows: nat,
    x: int,
    y: int,
    y_lo: int,
    y_hi: int,
    entry: usize,
)
    requires
        y_lo <= y <= y_hi,
        cell_at(cells, cols, rows, x, y).contains(entry),
    ensures
        column_scan(cells, cols, rows, x, y_lo, y_hi).contains(entry),
    decreases y_hi - y,
{
    let c = cell_at(cells, cols, rows, x, y_hi);
    let prev = column_scan(cells, cols, rows, x, y_lo, y_hi - 1);
    if y == y_hi {
        let k = choose|k: int| 0 <= k < c.len() && c[k] == entry;
        assert((prev + c)[prev.len() + k] == entry);
    } else {
        lemma_column_scan_covers(cells, cols, rows, x, y, y_lo, y_hi - 1, entry);
        let k = choose|k: int| 0 <= k < prev.len() && prev[k] == entry;
        assert((prev + c)[k] == entry);
    }
}

/// Nothing near the centre is missed: whatever a cell holds within the
/// scanned block shows up in the block's scan.
pub proof fn lemma_area_scan_covers(
    cells: Seq<Seq<usize>>,
    cols: nat,
    rows: nat,
    x: int,
    y: int,
    x_lo: int,
    x_hi: int,
    y_lo: int,
    y_hi: int,
    entry: usize,
)
    requires
        x_lo <= x <= x_hi,
        y_lo <= y <= y_hi,
        cell_at(cells, cols, rows, x, y).contains(entry),
    ensures
        area_scan(cells, cols, rows, x_lo, x_hi, y_lo, y_hi).contains(entry),
    decreases x_hi - x,
{
    let col = column_scan(cells, cols, rows, x_hi, y_lo, y_hi);
    let prev = area_scan(cells, cols, rows, x_lo, x_hi - 1, y_lo, y_hi);
    if x == x_hi {
        lemma_column_scan_covers(cells, cols, rows, x, y, y_lo, y_hi, entry);
        let k = choose|k: int| 0 <= k < col.len() && col[k] == entry;
        assert((prev + col)[prev.len() + k] == entry);
    } else {
        lemma_area_scan_covers(cells, cols, rows, x, y, x_lo, x_hi - 1, y_lo, y_hi, entry);
        let k = choose|k: int| 0 <= k < prev.len() && prev[k] == entry;
        assert((prev + col)[k] == entry);
    }
}

/// A handle stored in a cell is found by every neighbourhood scan whose
/// centre lies within the radius of that cell.
pub proof fn lemma_neighborhood_finds_stored(
    grid: SpatialGrid,
    cx: int,
    cy: int,
    x: int,
    y: int,
    radius: int,
    entry: usize,
)
    requires
        cx - radius <= x <= cx + radius,
        cy - radius <= y <= cy + radius,
        cell_at(grid.cells_view(), grid.spec_cols(), grid.spec_rows(), x, y).contains(entry),
    ensures
        grid.spec_neighborhood(cx, cy, radius).contains(entry),
{
    lemma_area_scan_covers(
        grid.cells_view(),
        grid.spec_cols(),
        grid.spec_rows(),
        x,
        y,
        cx - radius,
        cx + radius,
        cy - radius,
        cy + radius,
        entry,
    );
}

} // verus!
