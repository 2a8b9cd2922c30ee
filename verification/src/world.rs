use crate::cell::{Cell, Color, WPoint};
use crate::filters::{lemma_filter_none, lemma_filter_take};
use crate::matrix::{has_shape, m_entries, m_get, w_entries, w_filled, w_get, w_set, MMatrix, WMatrix};
use crate::mirror::{build_locations, build_mirror, is_identity, is_mirror, lemma_padded_fits};
use crate::view::{clamped, is_live, lemma_fresh_is_empty, representable, WorldView};
use std::collections::HashSet;
use vstd::arithmetic::div_mod::lemma_fundamental_div_mod_converse;
use vstd::prelude::*;
use vstd::std_specs::hash::*;

verus! {

broadcast use vstd::std_specs::hash::group_hash_axioms;

/// Why a world was not built or not reconfigured.
#[derive(Clone, Copy, Debug, PartialEq, Eq)]
pub enum WorldError {
    /// The dimensions are beyond what the machine can hold or address.
    Unrepresentable,
    /// The neighbour window would be wider than the grid is long or wide.
    EdgeTooWide,
}

/// The key under which the set of inactive cells holds `(r, c)`.
pub open spec fn slot(cols: nat, r: int, c: int) -> usize {
    (r * cols + c) as usize
}

/// State vectors of a grid of `rows` by `cols` whose spatial coordinates
/// are the ones derived from their place and `cell_size`.
pub open spec fn placed(entries: Seq<Seq<WPoint>>, rows: nat, cols: nat, cell_size: nat) -> bool {
    &&& has_shape(entries, rows, cols)
    &&& forall|r: int, c: int|
        0 <= r < rows && 0 <= c < cols ==> (#[trigger] entries[r][c]).x == c * cell_size
            && entries[r][c].y == r * cell_size
}

/// A set of keys that holds exactly the places of `entries` whose colour
/// is the all-zero colour.
pub open spec fn tracks(pool: Set<usize>, entries: Seq<Seq<WPoint>>, rows: nat, cols: nat) -> bool {
    &&& forall|k: usize| pool.contains(k) ==> k < rows * cols
    &&& forall|r: int, c: int|
        0 <= r < rows && 0 <= c < cols ==> (pool.contains(#[trigger] slot(cols, r, c))
            <==> entries[r][c].color.is_empty())
}

/// The key of a place inside the grid is below the number of places.
pub proof fn lemma_slot_bound(rows: nat, cols: nat, r: int, c: int)
    requires
        0 <= r < rows,
        0 <= c < cols,
    ensures
        0 <= r * cols + c < rows * cols,
{
    assert(r * cols + cols <= rows * cols) by (nonlinear_arith)
        requires
            0 <= r < rows,
    ;
    assert(0 <= r * cols) by (nonlinear_arith)
        requires
            0 <= r,
    ;
}

/// A key stands for one place: its row is the quotient by the number of
/// columns and its column the remainder.
pub proof fn lemma_slot_split(cols: nat, r: int, c: int)
    requires
        0 <= r,
        0 <= c < cols,
    ensures
        (r * cols + c) / (cols as int) == r,
        (r * cols + c) % (cols as int) == c,
{
    lemma_fundamental_div_mod_converse(r * cols + c, cols as int, r, c);
}

/// A grid of cells on a torus, with the wrap-around index of its neighbour
/// windows and the set of its inactive cells.
pub struct World {
    matrix: WMatrix,
    surroundings_matrix: MMatrix,
    locations_matrix: MMatrix,
    dead_pool: HashSet<usize>,
    edge_width: usize,
    cell_size: u64,
    cols: usize,
    rows: usize,
}

impl View for World {
    type V = WorldView;

    closed spec fn view(&self) -> WorldView {
        WorldView {
            rows: self.rows as nat,
            cols: self.cols as nat,
            cell_size: self.cell_size as nat,
            edge_width: self.edge_width as nat,
            colors: Seq::new(
                self.rows as nat,
                |r: int| Seq::new(self.cols as nat, |c: int| w_entries(self.matrix)[r][c].color),
            ),
        }
    }
}

/// Fills a set with the keys of every place of a grid of `rows` by `cols`.
fn fill_pool(rows: usize, cols: usize) -> (pool: HashSet<usize>)
    requires
        rows * cols <= usize::MAX,
    ensures
        forall|k: usize| pool@.contains(k) <==> k < rows * cols,
{
    let total = rows * cols;
    let mut pool: HashSet<usize> = HashSet::new();
    let mut k: usize = 0;
    while k < total
        invariant
            k <= total,
            forall|x: usize| pool@.contains(x) <==> x < k,
        decreases total - k,
    {
        pool.insert(k);
        k += 1;
    }
    pool
}

/// Recomputes the spatial coordinates of every state vector from its place
/// and `cell_size`, and leaves the colours as they are.
fn place_cells(matrix: &mut WMatrix, locations: &MMatrix, rows: usize, cols: usize, cell_size: u64)
    requires
        has_shape(w_entries(*old(matrix)), rows as nat, cols as nat),
        is_identity(m_entries(*locations), rows as nat, cols as nat),
        rows * cell_size <= u64::MAX,
        cols * cell_size <= u64::MAX,
    ensures
        placed(w_entries(*final(matrix)), rows as nat, cols as nat, cell_size as nat),
        forall|r: int, c: int|
            0 <= r < rows && 0 <= c < cols ==> (#[trigger] w_entries(*final(matrix))[r][c]).color
                == w_entries(*old(matrix))[r][c].color,
{
    let ghost before = w_entries(*matrix);
    let mut r: usize = 0;
    while r < rows
        invariant
            r <= rows,
            has_shape(w_entries(*matrix), rows as nat, cols as nat),
            has_shape(before, rows as nat, cols as nat),
            is_identity(m_entries(*locations), rows as nat, cols as nat),
            rows * cell_size <= u64::MAX,
            cols * cell_size <= u64::MAX,
            forall|i: int, j: int|
                0 <= i < rows && 0 <= j < cols ==> (#[trigger] w_entries(*matrix)[i][j]).color
                    == before[i][j].color,
            forall|i: int, j: int|
                0 <= i < r && 0 <= j < cols ==> (#[trigger] w_entries(*matrix)[i][j]).x == j
                    * cell_size && w_entries(*matrix)[i][j].y == i * cell_size,
        decreases rows - r,
    {
        let mut c: usize = 0;
        while c < cols
            invariant
                r < rows,
                c <= cols,
                has_shape(w_entries(*matrix), rows as nat, cols as nat),
                has_shape(before, rows as nat, cols as nat),
                is_identity(m_entries(*locations), rows as nat, cols as nat),
                rows * cell_size <= u64::MAX,
                cols * cell_size <= u64::MAX,
                forall|i: int, j: int|
                    0 <= i < rows && 0 <= j < cols ==> (#[trigger] w_entries(*matrix)[i][j]).color
                        == before[i][j].color,
                forall|i: int, j: int|
                    (0 <= i < r && 0 <= j < cols) || (i == r && 0 <= j < c) ==> (
                    #[trigger] w_entries(*matrix)[i][j]).x == j * cell_size && w_entries(
                        *matrix,
                    )[i][j].y == i * cell_size,
            decreases cols - c,
        {
            assert(m_entries(*locations)[r as int].len() == cols);
            let at = m_get(locations, r, c);
            assert(at == (r, c));
            assert(w_entries(*matrix)[r as int].len() == cols);
            let was = w_get(matrix, at.0, at.1);
            assert(at.1 * cell_size <= cols * cell_size) by (nonlinear_arith)
                requires
                    at.1 <= cols,
            ;
            assert(at.0 * cell_size <= rows * cell_size) by (nonlinear_arith)
                requires
                    at.0 <= rows,
            ;
            let state = WPoint {
                color: was.color,
                x: (at.1 as u64) * cell_size,
                y: (at.0 as u64) * cell_size,
            };
            w_set(matrix, at.0, at.1, state);
            c += 1;
        }
        r += 1;
    }
}

impl World {
    /// Whether the parts of the world agree with each other: the stored
    /// positions are the derived ones, the coordinate matrix and the
    /// wrap-around index belong to the current dimensions and radius, and
    /// the set of inactive cells holds exactly the all-zero cells.
    pub closed spec fn wf(&self) -> bool {
        &&& representable(self.rows as nat, self.cols as nat, self.cell_size as nat)
        &&& self.edge_width <= self.rows
        &&& self.edge_width <= self.cols
        &&& placed(w_entries(self.matrix), self.rows as nat, self.cols as nat, self.cell_size as nat)
        &&& is_identity(m_entries(self.locations_matrix), self.rows as nat, self.cols as nat)
        &&& is_mirror(
            m_entries(self.surroundings_matrix),
            self.rows as nat,
            self.cols as nat,
            self.edge_width as nat,
        )
        &&& tracks(self.dead_pool@, w_entries(self.matrix), self.rows as nat, self.cols as nat)
    }

    /// The locations that the set of inactive cells holds.
    pub closed spec fn dead_pool(&self) -> Set<(int, int)> {
        Set::new(
            |at: (int, int)|
                0 <= at.0 < self.rows && 0 <= at.1 < self.cols && self.dead_pool@.contains(
                    slot(self.cols as nat, at.0, at.1),
                ),
        )
    }

    /// In a well-formed world the set of inactive cells is exactly the set
    /// of locations whose colour is the all-zero colour.
    pub proof fn lemma_dead_pool_exact(&self)
        requires
            self.wf(),
        ensures
            self@.wf(),
            self.dead_pool() == self@.empty_cells(),
    {
        assert forall|at: (int, int)| self.dead_pool().contains(at) == self@.empty_cells().contains(
            at,
        ) by {
            if 0 <= at.0 < self.rows && 0 <= at.1 < self.cols {
                assert(self.dead_pool@.contains(slot(self.cols as nat, at.0, at.1)) <==> w_entries(
                    self.matrix,
                )[at.0][at.1].color.is_empty());
            }
        }
        assert(self.dead_pool() =~= self@.empty_cells());
    }

    /// Tells whether a world of these dimensions can be built.
    pub fn fits(rows: usize, cols: usize, cell_size: u64) -> (fits: bool)
        ensures
            fits == representable(rows as nat, cols as nat, cell_size as nat),
    {
        let padded = match rows.checked_mul(cols) {
            Some(places) => match places.checked_mul(288) {
                Some(bytes) => bytes <= isize::MAX as usize,
                None => false,
            },
            None => false,
        };
        if !padded {
            return false;
        }
        match ((rows as u64).checked_mul(cell_size), (cols as u64).checked_mul(cell_size)) {
            (Some(_), Some(_)) => true,
            _ => false,
        }
    }

    /// Assembles a world of inactive cells with the given dimensions and
    /// radius.
    fn build(rows: usize, cols: usize, cell_size: u64, edge_width: usize) -> (world: World)
        requires
            representable(rows as nat, cols as nat, cell_size as nat),
            edge_width <= rows,
            edge_width <= cols,
        ensures
            world.wf(),
            world@ == WorldView::fresh(rows as nat, cols as nat, cell_size as nat, edge_width as nat),
    {
        proof {
            lemma_padded_fits(rows as nat, cols as nat, 0);
        }
        let zero = WPoint { color: Color::dead(), x: 0, y: 0 };
        let mut matrix = w_filled(rows, cols, zero);
        let locations_matrix = build_locations(rows, cols);
        place_cells(&mut matrix, &locations_matrix, rows, cols, cell_size);
        let surroundings_matrix = build_mirror(&locations_matrix, rows, cols, edge_width);
        let dead_pool = fill_pool(rows, cols);
        let world = World {
            matrix,
            surroundings_matrix,
            locations_matrix,
            dead_pool,
            edge_width,
            cell_size,
            cols,
            rows,
        };
        proof {
            assert forall|r: int, c: int| 0 <= r < rows && 0 <= c < cols implies (
            world.dead_pool@.contains(#[trigger] slot(cols as nat, r, c)) <==> w_entries(
                world.matrix,
            )[r][c].color.is_empty()) by {
                lemma_slot_bound(rows as nat, cols as nat, r, c);
            }
            assert(world@.colors =~~= WorldView::fresh(
                rows as nat,
                cols as nat,
                cell_size as nat,
                edge_width as nat,
            ).colors);
        }
        world
    }

    /// A world of `rows` by `cols` inactive cells whose squares have the
    /// side `cell_size`. Its neighbour window has the radius 1, or 0 where
    /// the grid has no cell.
    pub fn new(rows: usize, cols: usize, cell_size: u64) -> (world: World)
        requires
            representable(rows as nat, cols as nat, cell_size as nat),
        ensures
            world.wf(),
            world@ == WorldView::fresh(
                rows as nat,
                cols as nat,
                cell_size as nat,
                if rows >= 1 && cols >= 1 {
                    1nat
                } else {
                    0nat
                },
            ),
            world.dead_pool() == world@.empty_cells(),
    {
        let edge_width: usize = if rows >= 1 && cols >= 1 {
            1
        } else {
            0
        };
        let world = World::build(rows, cols, cell_size, edge_width);
        proof {
            world.lemma_dead_pool_exact();
        }
        world
    }
}

impl World {
    /// A world as `new` builds it, or nothing where the dimensions cannot
    /// be represented.
    pub fn try_new(rows: usize, cols: usize, cell_size: u64) -> (made: Result<World, WorldError>)
        ensures
            made is Ok <==> representable(rows as nat, cols as nat, cell_size as nat),
            made matches Ok(world) ==> world.wf() && world@ == WorldView::fresh(
                rows as nat,
                cols as nat,
                cell_size as nat,
                if rows >= 1 && cols >= 1 {
                    1nat
                } else {
                    0nat
                },
            ) && world.dead_pool() == world@.empty_cells(),
            made matches Err(error) ==> error == WorldError::Unrepresentable,
    {
        if World::fits(rows, cols, cell_size) {
            Ok(World::new(rows, cols, cell_size))
        } else {
            Err(WorldError::Unrepresentable)
        }
    }

    /// The number of rows.
    pub fn rows(&self) -> (rows: usize)
        ensures
            rows == self@.rows,
    {
        self.rows
    }

    /// The number of columns.
    pub fn cols(&self) -> (cols: usize)
        ensures
            cols == self@.cols,
    {
        self.cols
    }

    /// The side of a cell's square.
    pub fn cell_size(&self) -> (cell_size: u64)
        ensures
            cell_size == self@.cell_size,
    {
        self.cell_size
    }

    /// The radius of the neighbour window.
    pub fn edge_width(&self) -> (edge_width: usize)
        ensures
            edge_width == self@.edge_width,
    {
        self.edge_width
    }

    /// The cell at a location inside the grid.
    pub fn cell_at(&self, row: usize, col: usize) -> (cell: Cell)
        requires
            self.wf(),
            self@.contains(row as int, col as int),
        ensures
            cell == self@.cell(row as int, col as int),
    {
        assert(w_entries(self.matrix)[row as int].len() == self.cols);
        let w_point = w_get(&self.matrix, row, col);
        Cell::from((w_point, row, col))
    }

    /// The cell at `(row, col)`, or nothing where that lies outside the
    /// grid.
    pub fn find_cell_at(&self, row: usize, col: usize) -> (found: Option<Cell>)
        requires
            self.wf(),
        ensures
            found == if self@.contains(row as int, col as int) {
                Some(self@.cell(row as int, col as int))
            } else {
                None
            },
    {
        if self.cols > col && self.rows > row {
            Some(self.cell_at(row, col))
        } else {
            None
        }
    }

    /// Tells whether the location `(row, col)` of the grid is inactive, by
    /// asking the set of inactive cells.
    fn is_dead_at(&self, row: usize, col: usize) -> (dead: bool)
        requires
            self.wf(),
            self@.contains(row as int, col as int),
        ensures
            dead == self@.colors[row as int][col as int].is_empty(),
            dead == self.dead_pool().contains((row as int, col as int)),
    {
        proof {
            lemma_slot_bound(self.rows as nat, self.cols as nat, row as int, col as int);
            lemma_padded_fits(self.rows as nat, self.cols as nat, 0);
            assert(row * self.cols >= 0) by (nonlinear_arith);
        }
        let key = row * self.cols + col;
        assert(key == slot(self.cols as nat, row as int, col as int));
        self.dead_pool.contains(&key)
    }

    /// Stores the colour of `cell` at the location of `cell`, which must lie
    /// inside the grid, and moves that location into or out of the set of
    /// inactive cells as the colour asks. The stored position stays the one
    /// derived from the location.
    pub fn write(&mut self, cell: Cell)
        requires
            old(self).wf(),
            old(self)@.contains(cell.at.0 as int, cell.at.1 as int),
        ensures
            final(self).wf(),
            final(self)@ == old(self)@.write(cell),
            final(self).dead_pool() == final(self)@.empty_cells(),
            final(self).dead_pool() == if cell.color.is_empty() {
                old(self).dead_pool().insert((cell.at.0 as int, cell.at.1 as int))
            } else {
                old(self).dead_pool().remove((cell.at.0 as int, cell.at.1 as int))
            },
    {
        let (w_point, row, col) = <(WPoint, usize, usize)>::from(cell);
        let ghost rows = self.rows as nat;
        let ghost cols = self.cols as nat;
        let ghost before = w_entries(self.matrix);
        let ghost pool = self.dead_pool@;
        proof {
            lemma_slot_bound(rows, cols, row as int, col as int);
            lemma_padded_fits(rows, cols, 0);
            assert(row * self.cols >= 0) by (nonlinear_arith);
            old(self).lemma_dead_pool_exact();
        }
        assert(before[row as int].len() == cols);
        let was = w_get(&self.matrix, row, col);
        let state = WPoint { color: w_point.color, x: was.x, y: was.y };
        w_set(&mut self.matrix, row, col, state);
        let key = row * self.cols + col;
        if cell.color.is_dead() {
            self.dead_pool.insert(key);
        } else {
            self.dead_pool.remove(&key);
        }
        proof {
            let after = w_entries(self.matrix);
            assert forall|r: int, c: int| 0 <= r < rows && 0 <= c < cols implies (
            self.dead_pool@.contains(#[trigger] slot(cols, r, c)) <==> after[r][c].color.is_empty()) by {
                lemma_slot_bound(rows, cols, r, c);
                if r != row || c != col {
                    lemma_slot_split(cols, r, c);
                    lemma_slot_split(cols, row as int, col as int);
                    assert(slot(cols, r, c) != key);
                    assert(pool.contains(slot(cols, r, c)) <==> before[r][c].color.is_empty());
                }
            }
            assert(self@.colors =~~= old(self)@.write(cell).colors);
            self.lemma_dead_pool_exact();
            if cell.color.is_empty() {
                assert(self@.empty_cells() =~= old(self)@.empty_cells().insert(
                    (cell.at.0 as int, cell.at.1 as int),
                ));
            } else {
                assert(self@.empty_cells() =~= old(self)@.empty_cells().remove(
                    (cell.at.0 as int, cell.at.1 as int),
                ));
            }
        }
    }
}

impl World {
    /// The active cells in row-major order: every cell whose location is
    /// not in the set of inactive cells.
    pub fn get_cells(&self) -> (cells: Vec<Cell>)
        requires
            self.wf(),
        ensures
            cells@ == self@.live(),
            forall|i: int|
                0 <= i < cells.len() ==> self@.contains(
                    (#[trigger] cells[i]).at.0 as int,
                    cells[i].at.1 as int,
                ) && cells[i] == self@.cell(cells[i].at.0 as int, cells[i].at.1 as int)
                    && !self.dead_pool().contains((cells[i].at.0 as int, cells[i].at.1 as int)),
    {
        let ghost all = self@.all_cells();
        let ghost cols = self.cols as nat;
        let mut cells: Vec<Cell> = Vec::new();
        let mut r: usize = 0;
        proof {
            lemma_padded_fits(self.rows as nat, cols, 0);
            assert(all.take(0) =~= Seq::<Cell>::empty());
            lemma_filter_none(all.take(0), is_live());
        }
        while r < self.rows
            invariant
                self.wf(),
                r <= self.rows,
                cols == self.cols,
                all == self@.all_cells(),
                cells@ == all.take(r * cols).filter(is_live()),
                forall|i: int|
                    0 <= i < cells.len() ==> self@.contains(
                        (#[trigger] cells[i]).at.0 as int,
                        cells[i].at.1 as int,
                    ) && cells[i] == self@.cell(cells[i].at.0 as int, cells[i].at.1 as int)
                        && !self.dead_pool().contains((cells[i].at.0 as int, cells[i].at.1 as int)),
            decreases self.rows - r,
        {
            let mut c: usize = 0;
            while c < self.cols
                invariant
                    self.wf(),
                    r < self.rows,
                    c <= self.cols,
                    cols == self.cols,
                    all == self@.all_cells(),
                    cells@ == all.take(r * cols + c).filter(is_live()),
                    forall|i: int|
                        0 <= i < cells.len() ==> self@.contains(
                            (#[trigger] cells[i]).at.0 as int,
                            cells[i].at.1 as int,
                        ) && cells[i] == self@.cell(cells[i].at.0 as int, cells[i].at.1 as int)
                            && !self.dead_pool().contains(
                            (cells[i].at.0 as int, cells[i].at.1 as int),
                        ),
                decreases self.cols - c,
            {
                assert(m_entries(self.locations_matrix)[r as int].len() == cols);
                let at = m_get(&self.locations_matrix, r, c);
                proof {
                    lemma_slot_bound(self.rows as nat, cols, r as int, c as int);
                    lemma_slot_split(cols, r as int, c as int);
                    lemma_filter_take(all, r * cols + c, is_live());
                    assert(all[r * cols + c] == self@.cell(r as int, c as int));
                }
                if !self.is_dead_at(at.0, at.1) {
                    let cell = self.cell_at(at.0, at.1);
                    cells.push(cell);
                }
                c += 1;
            }
            proof {
                assert(r * cols + cols == (r + 1) * cols) by (nonlinear_arith);
            }
            r += 1;
        }
        proof {
            assert(all.take(self.rows * cols) =~= all);
        }
        cells
    }

    /// The locations of the neighbours of the cell at `at`, which must lie
    /// inside the grid, active or not: the places under the window around
    /// it, scanned in row-major order and resolved through the wrap-around
    /// index, without any that stands for the cell itself.
    pub fn get_neighbors(&self, at: (usize, usize)) -> (found: Vec<(usize, usize)>)
        requires
            self.wf(),
            self@.contains(at.0 as int, at.1 as int),
        ensures
            found@.map_values(|p: (usize, usize)| (p.0 as int, p.1 as int)) == self@.neighbors(
                at.0 as int,
                at.1 as int,
            ),
    {
        let (row, col) = at;
        let ghost view = self@;
        let ghost window = view.window(row as int, col as int);
        let ghost keep = WorldView::is_other(row as int, col as int);
        let ghost widen = |p: (usize, usize)| (p.0 as int, p.1 as int);
        proof {
            lemma_padded_fits(self.rows as nat, self.cols as nat, self.edge_width as nat);
            assert(window.take(0) =~= Seq::<(int, int)>::empty());
            lemma_filter_none(window.take(0), keep);
        }
        let side = self.edge_width * 2 + 1;
        let mut found: Vec<(usize, usize)> = Vec::new();
        assert(found@.map_values(widen) =~= window.take(0).filter(keep));
        let mut i: usize = 0;
        while i < side
            invariant
                self.wf(),
                view == self@,
                view.contains(row as int, col as int),
                side == view.side(),
                window == view.window(row as int, col as int),
                keep == WorldView::is_other(row as int, col as int),
                widen == |p: (usize, usize)| (p.0 as int, p.1 as int),
                i <= side,
                self.rows + 2 * self.edge_width <= usize::MAX,
                self.cols + 2 * self.edge_width <= usize::MAX,
                found@.map_values(widen) == window.take(i * side).filter(keep),
            decreases side - i,
        {
            let mut j: usize = 0;
            while j < side
                invariant
                    self.wf(),
                    view == self@,
                    view.contains(row as int, col as int),
                    side == view.side(),
                    window == view.window(row as int, col as int),
                    keep == WorldView::is_other(row as int, col as int),
                    widen == |p: (usize, usize)| (p.0 as int, p.1 as int),
                    i < side,
                    j <= side,
                    self.rows + 2 * self.edge_width <= usize::MAX,
                    self.cols + 2 * self.edge_width <= usize::MAX,
                    found@.map_values(widen) == window.take(i * side + j).filter(keep),
                decreases side - j,
            {
                let ghost k = i * side + j;
                let ghost before = found@;
                proof {
                    lemma_slot_bound(side as nat, side as nat, i as int, j as int);
                    lemma_slot_split(side as nat, i as int, j as int);
                    lemma_filter_take(window, k, keep);
                    assert(m_entries(self.surroundings_matrix)[row + i].len() == self.cols + 2
                        * self.edge_width);
                }
                let place = m_get(&self.surroundings_matrix, row + i, col + j);
                assert((place.0 as int, place.1 as int) == window[k]);
                if place.0 != row || place.1 != col {
                    found.push(place);
                    assert(found@.map_values(widen) =~= before.map_values(widen).push(window[k]));
                }
                j += 1;
            }
            proof {
                assert(i * side + side == (i + 1) * side) by (nonlinear_arith);
            }
            i += 1;
        }
        proof {
            assert(window.take(side * side) =~= window);
        }
        found
    }

    /// The active neighbours of the cell at `at`, which must lie inside the
    /// grid: the cells under the window around it, scanned in row-major
    /// order and resolved through the wrap-around index, without the cell
    /// itself and without the inactive ones.
    pub fn get_surroundings(&self, at: (usize, usize)) -> (cells: Vec<Cell>)
        requires
            self.wf(),
            self@.contains(at.0 as int, at.1 as int),
        ensures
            cells@ == self@.surroundings(at.0 as int, at.1 as int),
    {
        let (row, col) = at;
        let ghost view = self@;
        let ghost window = view.window(row as int, col as int);
        let ghost keep = view.is_live_other(row as int, col as int);
        let ghost cell_of = |p: (int, int)| view.cell(p.0, p.1);
        proof {
            lemma_padded_fits(self.rows as nat, self.cols as nat, self.edge_width as nat);
            assert(window.take(0) =~= Seq::<(int, int)>::empty());
            lemma_filter_none(window.take(0), keep);
            assert(window.take(0).filter(keep).map_values(cell_of) =~= Seq::<Cell>::empty());
        }
        let side = self.edge_width * 2 + 1;
        let mut cells: Vec<Cell> = Vec::new();
        let mut i: usize = 0;
        while i < side
            invariant
                self.wf(),
                view == self@,
                view.contains(row as int, col as int),
                side == view.side(),
                window == view.window(row as int, col as int),
                keep == view.is_live_other(row as int, col as int),
                cell_of == |p: (int, int)| view.cell(p.0, p.1),
                i <= side,
                self.rows + 2 * self.edge_width <= usize::MAX,
                self.cols + 2 * self.edge_width <= usize::MAX,
                cells@ == window.take(i * side).filter(keep).map_values(cell_of),
            decreases side - i,
        {
            let mut j: usize = 0;
            while j < side
                invariant
                    self.wf(),
                    view == self@,
                    view.contains(row as int, col as int),
                    side == view.side(),
                    window == view.window(row as int, col as int),
                    keep == view.is_live_other(row as int, col as int),
                    cell_of == |p: (int, int)| view.cell(p.0, p.1),
                    i < side,
                    j <= side,
                    self.rows + 2 * self.edge_width <= usize::MAX,
                    self.cols + 2 * self.edge_width <= usize::MAX,
                    cells@ == window.take(i * side + j).filter(keep).map_values(cell_of),
                decreases side - j,
            {
                let ghost k = i * side + j;
                proof {
                    lemma_slot_bound(side as nat, side as nat, i as int, j as int);
                    lemma_slot_split(side as nat, i as int, j as int);
                    lemma_filter_take(window, k, keep);
                    assert(m_entries(self.surroundings_matrix)[row + i].len() == self.cols + 2
                        * self.edge_width);
                }
                let found = m_get(&self.surroundings_matrix, row + i, col + j);
                assert((found.0 as int, found.1 as int) == window[k]);
                if found.0 != row || found.1 != col {
                    if !self.is_dead_at(found.0, found.1) {
                        let cell = self.cell_at(found.0, found.1);
                        cells.push(cell);
                        assert(window.take(k + 1).filter(keep).map_values(cell_of)
                            =~= window.take(k).filter(keep).map_values(cell_of).push(cell));
                    }
                }
                j += 1;
            }
            proof {
                assert(i * side + side == (i + 1) * side) by (nonlinear_arith);
            }
            i += 1;
        }
        proof {
            assert(window.take(side * side) =~= window);
        }
        cells
    }

    /// Rebuilds the wrap-around index for the radius `edge_width`. A
    /// radius above the number of rows or of columns is turned down, and
    /// the world stays as it was.
    pub fn mirror_edge(&mut self, edge_width: usize) -> (outcome: Result<(), WorldError>)
        requires
            old(self).wf(),
        ensures
            final(self).wf(),
            outcome is Ok <==> edge_width <= old(self)@.rows && edge_width <= old(self)@.cols,
            outcome is Ok ==> final(self)@ == (WorldView {
                edge_width: edge_width as nat,
                ..old(self)@
            }),
            outcome is Err ==> outcome == Err::<(), WorldError>(WorldError::EdgeTooWide)
                && final(self)@ == old(self)@,
            final(self).dead_pool() == old(self).dead_pool(),
    {
        if edge_width > self.rows || edge_width > self.cols {
            return Err(WorldError::EdgeTooWide);
        }
        self.surroundings_matrix =
        build_mirror(&self.locations_matrix, self.rows, self.cols, edge_width);
        self.edge_width = edge_width;
        proof {
            assert(self@.colors =~~= old(self)@.colors);
            assert(self.dead_pool() =~= old(self).dead_pool());
        }
        Ok(())
    }

    /// Discards every colour: the world becomes one of inactive cells with
    /// the same dimensions, cell size and radius, and its wrap-around index
    /// and set of inactive cells are built anew.
    pub fn reset(&mut self)
        requires
            old(self).wf(),
        ensures
            final(self).wf(),
            final(self)@ == WorldView::fresh(
                old(self)@.rows,
                old(self)@.cols,
                old(self)@.cell_size,
                old(self)@.edge_width,
            ),
            final(self).dead_pool() == final(self)@.empty_cells(),
    {
        let world = World::build(self.rows, self.cols, self.cell_size, self.edge_width);
        proof {
            world.lemma_dead_pool_exact();
        }
        *self = world;
    }

    /// Replaces the world by one of inactive cells with the given
    /// dimensions and cell size, and rebuilds the wrap-around index. The
    /// radius is kept where the new grid is at least that long and wide,
    /// and is otherwise the lesser of the new dimensions.
    pub fn resize(&mut self, rows: usize, cols: usize, cell_size: u64)
        requires
            old(self).wf(),
            representable(rows as nat, cols as nat, cell_size as nat),
        ensures
            final(self).wf(),
            final(self)@ == WorldView::fresh(
                rows as nat,
                cols as nat,
                cell_size as nat,
                clamped(old(self)@.edge_width, rows as nat, cols as nat),
            ),
            final(self).dead_pool() == final(self)@.empty_cells(),
            final(self)@.live() == Seq::<Cell>::empty(),
            forall|r: int, c: int|
                0 <= r < rows && 0 <= c < cols ==> (#[trigger] final(self)@.cell(r, c)).top_left == (
                    (c * cell_size) as u64,
                    (r * cell_size) as u64,
                ),
    {
        let mut edge_width = self.edge_width;
        if edge_width > rows {
            edge_width = rows;
        }
        if edge_width > cols {
            edge_width = cols;
        }
        let world = World::build(rows, cols, cell_size, edge_width);
        proof {
            world.lemma_dead_pool_exact();
            lemma_fresh_is_empty(rows as nat, cols as nat, cell_size as nat, edge_width as nat);
        }
        *self = world;
    }

    /// Recomputes the position of every cell for squares of the side
    /// `cell_size`, and leaves the colours untouched.
    pub fn resize_cells(&mut self, cell_size: u64)
        requires
            old(self).wf(),
            representable(old(self)@.rows, old(self)@.cols, cell_size as nat),
        ensures
            final(self).wf(),
            final(self)@ == (WorldView { cell_size: cell_size as nat, ..old(self)@ }),
            final(self).dead_pool() == old(self).dead_pool(),
    {
        place_cells(&mut self.matrix, &self.locations_matrix, self.rows, self.cols, cell_size);
        self.cell_size = cell_size;
        proof {
            assert(self@.colors =~~= old(self)@.colors);
            assert(self.dead_pool() =~= old(self).dead_pool());
        }
    }
}

} // verus!
