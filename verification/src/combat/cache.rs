//! The per-frame collision cache: the two grids that asteroids and enemy
//! bullets are sorted into, and the sets of bullets and asteroids already
//! used up this frame.
use vstd::prelude::*;

use std::collections::HashSet;

use super::grid::{
    cell_at, lemma_neighborhood_finds_stored, lemma_wf_grid_has_every_cell, spec_cell_index, SpatialGrid,
};
use super::EntityId;

verus! {

broadcast use vstd::std_specs::hash::group_hash_axioms;

/// Grids and per-frame bookkeeping shared by the collision passes.
pub struct CollisionCache {
    pub hit_bullets: HashSet<EntityId>,
    pub hit_enemies: HashSet<EntityId>,
    pub enemy_grid: SpatialGrid,
    pub enemy_bullet_grid: SpatialGrid,
    pub reserved: bool,
}

/// `cells` after storing handle `i` for each `coords[i]`, in order, in the
/// cell at those coordinates; coordinates outside the grid store nothing.
pub open spec fn filled(cells: Seq<Seq<usize>>, cols: nat, rows: nat, coords: Seq<(i64, i64)>) -> Seq<
    Seq<usize>,
>
    decreases coords.len(),
{
    if coords.len() == 0 {
        cells
    } else {
        let before = filled(cells, cols, rows, coords.drop_last());
        let handle = (coords.len() - 1) as usize;
        match spec_cell_index(cols, rows, coords.last().0 as int, coords.last().1 as int) {
            Some(k) => if k < before.len() {
                before.update(k as int, before[k as int].push(handle))
            } else {
                before
            },
            None => before,
        }
    }
}

/// As many empty cells as `n`.
pub open spec fn empty_cells(n: nat) -> Seq<Seq<usize>> {
    Seq::new(n, |i: int| Seq::<usize>::empty())
}

impl CollisionCache {
    /// Both grids are consistent.
    pub open spec fn wf(self) -> bool {
        self.enemy_grid.wf() && self.enemy_bullet_grid.wf()
    }

    /// An empty cache whose grids get their size on the first `prepare`.
    pub fn new() -> (c: CollisionCache)
        ensures
            c.wf(),
            c.enemy_grid.spec_cols() == 0,
            c.enemy_bullet_grid.spec_cols() == 0,
            c.hit_bullets@ == Set::<EntityId>::empty(),
            c.hit_enemies@ == Set::<EntityId>::empty(),
            !c.reserved,
    {
        CollisionCache {
            hit_bullets: HashSet::new(),
            hit_enemies: HashSet::new(),
            enemy_grid: SpatialGrid::new(),
            enemy_bullet_grid: SpatialGrid::new(),
            reserved: false,
        }
    }

    /// Readies the cache for a new frame. The grids are resized to `cols` by
    /// `rows` cells when they have no size yet or the play area was
    /// `resized`; otherwise they keep their size. Either way they end up
    /// empty, as do the sets of bullets and asteroids used up.
    pub fn prepare(&mut self, resized: bool, cols: usize, rows: usize)
        requires
            old(self).wf(),
            cols * rows <= usize::MAX,
        ensures
            final(self).wf(),
            final(self).enemy_grid.is_empty_grid(),
            final(self).enemy_bullet_grid.is_empty_grid(),
            if old(self).enemy_grid.spec_cols() == 0 || resized {
                &&& final(self).enemy_grid.spec_cols() == cols
                &&& final(self).enemy_grid.spec_rows() == rows
                &&& final(self).enemy_bullet_grid.spec_cols() == cols
                &&& final(self).enemy_bullet_grid.spec_rows() == rows
                &&& final(self).enemy_grid.cells_view().len() == if old(self).enemy_grid.cells_view().len()
                    < cols * rows {
                    (cols * rows) as nat
                } else {
                    old(self).enemy_grid.cells_view().len()
                }
                &&& final(self).enemy_bullet_grid.cells_view().len() == if old(
                    self,
                ).enemy_bullet_grid.cells_view().len() < cols * rows {
                    (cols * rows) as nat
                } else {
                    old(self).enemy_bullet_grid.cells_view().len()
                }
            } else {
                &&& final(self).enemy_grid.spec_cols() == old(self).enemy_grid.spec_cols()
                &&& final(self).enemy_grid.spec_rows() == old(self).enemy_grid.spec_rows()
                &&& final(self).enemy_bullet_grid.spec_cols() == old(self).enemy_bullet_grid.spec_cols()
                &&& final(self).enemy_bullet_grid.spec_rows() == old(self).enemy_bullet_grid.spec_rows()
                &&& final(self).enemy_grid.cells_view().len() == old(self).enemy_grid.cells_view().len()
                &&& final(self).enemy_bullet_grid.cells_view().len()
                    == old(self).enemy_bullet_grid.cells_view().len()
            },
            final(self).reserved,
            final(self).hit_bullets@ == Set::<EntityId>::empty(),
            final(self).hit_enemies@ == Set::<EntityId>::empty(),
    {
        if self.enemy_grid.cols() == 0 || resized {
            self.enemy_grid.rebuild(cols, rows);
            self.enemy_bullet_grid.rebuild(cols, rows);
        } else {
            self.enemy_grid.clear();
            self.enemy_bullet_grid.clear();
        }
        if !self.reserved {
            self.hit_bullets.reserve(128);
            self.hit_enemies.reserve(64);
            self.reserved = true;
        }
        self.hit_bullets.clear();
        self.hit_enemies.clear();
    }

    pub fn enemy_grid(&self) -> (g: &SpatialGrid)
        ensures
            *g == self.enemy_grid,
    {
        &self.enemy_grid
    }

    pub fn enemy_bullet_grid(&self) -> (g: &SpatialGrid)
        ensures
            *g == self.enemy_bullet_grid,
    {
        &self.enemy_bullet_grid
    }
}

fn fill_grid(grid: &mut SpatialGrid, coords: &Vec<(i64, i64)>)
    requires
        old(grid).wf(),
    ensures
        final(grid).wf(),
        final(grid).spec_cols() == old(grid).spec_cols(),
        final(grid).spec_rows() == old(grid).spec_rows(),
        final(grid).cells_view() == filled(
            old(grid).cells_view(),
            old(grid).spec_cols(),
            old(grid).spec_rows(),
            coords@,
        ),
{
    let ghost start = grid.cells_view();
    let mut i: usize = 0;
    while i < coords.len()
        invariant
            0 <= i <= coords@.len(),
            grid.wf(),
            grid.spec_cols() == old(grid).spec_cols(),
            grid.spec_rows() == old(grid).spec_rows(),
            grid.cells_view() == filled(start, grid.spec_cols(), grid.spec_rows(), coords@.take(i as int)),
        decreases coords@.len() - i,
    {
        let (cx, cy) = coords[i];
        assert(coords@.take(i + 1).drop_last() =~= coords@.take(i as int));
        assert(coords@.take(i + 1).last() == (cx, cy));
        grid.insert_center(i, cx, cy);
        i = i + 1;
    }
    assert(coords@.take(coords@.len() as int) =~= coords@);
}

/// Readies the cache for a frame and sorts this frame's asteroids and enemy
/// bullets into their grids: the asteroid at `enemy_cells[i]` is stored as
/// handle `i`, and likewise each enemy bullet.
pub fn prepare_collision_cache(
    cache: &mut CollisionCache,
    resized: bool,
    cols: usize,
    rows: usize,
    enemy_cells: &Vec<(i64, i64)>,
    enemy_bullet_cells: &Vec<(i64, i64)>,
)
    requires
        old(cache).wf(),
        cols * rows <= usize::MAX,
    ensures
        final(cache).wf(),
        final(cache).reserved,
        final(cache).hit_bullets@ == Set::<EntityId>::empty(),
        final(cache).hit_enemies@ == Set::<EntityId>::empty(),
        old(cache).enemy_grid.spec_cols() == 0 || resized ==> final(cache).enemy_grid.spec_cols() == cols
            && final(cache).enemy_grid.spec_rows() == rows && final(cache).enemy_bullet_grid.spec_cols()
            == cols && final(cache).enemy_bullet_grid.spec_rows() == rows,
        !(old(cache).enemy_grid.spec_cols() == 0 || resized) ==> final(cache).enemy_grid.spec_cols()
            == old(cache).enemy_grid.spec_cols() && final(cache).enemy_grid.spec_rows() == old(
            cache,
        ).enemy_grid.spec_rows() && final(cache).enemy_bullet_grid.spec_cols() == old(
            cache,
        ).enemy_bullet_grid.spec_cols() && final(cache).enemy_bullet_grid.spec_rows() == old(
            cache,
        ).enemy_bullet_grid.spec_rows(),
        final(cache).enemy_grid.cells_view() == filled(
            empty_cells(final(cache).enemy_grid.cells_view().len()),
            final(cache).enemy_grid.spec_cols(),
            final(cache).enemy_grid.spec_rows(),
            enemy_cells@,
        ),
        final(cache).enemy_bullet_grid.cells_view() == filled(
            empty_cells(final(cache).enemy_bullet_grid.cells_view().len()),
            final(cache).enemy_bullet_grid.spec_cols(),
            final(cache).enemy_bullet_grid.spec_rows(),
            enemy_bullet_cells@,
        ),
{
    cache.prepare(resized, cols, rows);
    proof {
        lemma_filled_keeps_len(
            cache.enemy_grid.cells_view(),
            cache.enemy_grid.spec_cols(),
            cache.enemy_grid.spec_rows(),
            enemy_cells@,
        );
        lemma_filled_keeps_len(
            cache.enemy_bullet_grid.cells_view(),
            cache.enemy_bullet_grid.spec_cols(),
            cache.enemy_bullet_grid.spec_rows(),
            enemy_bullet_cells@,
        );
    }
    assert(cache.enemy_grid.cells_view() =~= empty_cells(cache.enemy_grid.cells_view().len()));
    assert(cache.enemy_bullet_grid.cells_view() =~= empty_cells(
        cache.enemy_bullet_grid.cells_view().len(),
    ));
    fill_grid(&mut cache.enemy_grid, enemy_cells);
    fill_grid(&mut cache.enemy_bullet_grid, enemy_bullet_cells);
}

/// Filling stores each handle whose coordinates lie in the grid in the cell
/// at those coordinates.
proof fn lemma_filled_stores_each(cells: Seq<Seq<usize>>, cols: nat, rows: nat, coords: Seq<(i64, i64)>, i: int)
    requires
        cols * rows <= cells.len(),
        0 <= i < coords.len(),
        0 <= coords[i].0 < cols,
        0 <= coords[i].1 < rows,
    ensures
        cell_at(filled(cells, cols, rows, coords), cols, rows, coords[i].0 as int, coords[i].1 as int).contains(
            i as usize,
        ),
    decreases coords.len(),
{
    let prev_coords = coords.drop_last();
    let before = filled(cells, cols, rows, prev_coords);
    lemma_filled_keeps_len(cells, cols, rows, prev_coords);
    let x = coords[i].0 as int;
    let y = coords[i].1 as int;
    let k = y * cols + x;
    assert(k < cols * rows) by (nonlinear_arith)
        requires
            0 <= x < cols,
            0 <= y < rows,
            k == y * cols + x,
    ;
    assert(0 <= k) by (nonlinear_arith)
        requires
            0 <= x,
            0 <= y,
            k == y * cols + x,
    ;
    let after = filled(cells, cols, rows, coords);
    if i == coords.len() - 1 {
        assert(spec_cell_index(cols, rows, x, y) == Some(k as nat));
        assert(after == before.update(k, before[k].push(i as usize)));
        assert(after[k] == before[k].push(i as usize));
        assert(after[k][before[k].len() as int] == i as usize);
    } else {
        assert(prev_coords[i] == coords[i]);
        lemma_filled_stores_each(cells, cols, rows, prev_coords, i);
        let c = before[k];
        let w = choose|w: int| 0 <= w < c.len() && c[w] == i as usize;
        let last = coords.last();
        match spec_cell_index(cols, rows, last.0 as int, last.1 as int) {
            Some(j) => {
                if j < before.len() {
                    if j as int == k {
                        assert(after[k] == c.push((coords.len() - 1) as usize));
                        assert(after[k][w] == i as usize);
                    } else {
                        assert(after[k] == c);
                    }
                }
            },
            None => {},
        }
        assert(after[k][w] == i as usize);
    }
}

/// Nothing near is missed: after a frame's asteroids (or enemy bullets) are
/// sorted into a grid, each one whose coordinates lie in the grid is among
/// the handles of every neighbourhood scan whose centre lies within the
/// scan's radius of its cell.
pub proof fn lemma_filled_grid_misses_nothing(
    grid: SpatialGrid,
    coords: Seq<(i64, i64)>,
    i: int,
    cx: int,
    cy: int,
    radius: int,
)
    requires
        grid.wf(),
        grid.cells_view() == filled(
            empty_cells(grid.cells_view().len()),
            grid.spec_cols(),
            grid.spec_rows(),
            coords,
        ),
        0 <= i < coords.len(),
        0 <= coords[i].0 < grid.spec_cols(),
        0 <= coords[i].1 < grid.spec_rows(),
        cx - radius <= coords[i].0 <= cx + radius,
        cy - radius <= coords[i].1 <= cy + radius,
    ensures
        grid.spec_neighborhood(cx, cy, radius).contains(i as usize),
{
    lemma_wf_grid_has_every_cell(grid);
    lemma_filled_stores_each(
        empty_cells(grid.cells_view().len()),
        grid.spec_cols(),
        grid.spec_rows(),
        coords,
        i,
    );
    lemma_neighborhood_finds_stored(grid, cx, cy, coords[i].0 as int, coords[i].1 as int, radius, i as usize);
}

proof fn lemma_filled_keeps_len(cells: Seq<Seq<usize>>, cols: nat, rows: nat, coords: Seq<(i64, i64)>)
    ensures
        filled(cells, cols, rows, coords).len() == cells.len(),
    decreases coords.len(),
{
    if coords.len() > 0 {
        lemma_filled_keeps_len(cells, cols, rows, coords.drop_last());
    }
}

} // verus!
