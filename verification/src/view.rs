use crate::cell::{Cell, Color};
use crate::filters::lemma_filter_none;
use crate::matrix::{has_shape, with_entry};
use crate::mirror::mirrored;
use vstd::arithmetic::div_mod::{lemma_fundamental_div_mod, lemma_mod_bound};
use vstd::prelude::*;

verus! {

/// Dimensions that a world can be built with. The largest padded index,
/// which is three times the grid along each axis and so holds nine times
/// its places, must fit the address space at 32 bytes an entry, the size of
/// the widest entry that a matrix of the world holds; and the far corner of
/// the grid must be addressable in presentation units.
pub open spec fn representable(rows: nat, cols: nat, cell_size: nat) -> bool {
    &&& 288 * (rows * cols) <= isize::MAX
    &&& rows * cell_size <= u64::MAX
    &&& cols * cell_size <= u64::MAX
}

/// The radius that a world keeps when it takes new dimensions: its own
/// where that fits, and otherwise the lesser of the two dimensions.
pub open spec fn clamped(edge_width: nat, rows: nat, cols: nat) -> nat {
    if edge_width <= rows && edge_width <= cols {
        edge_width
    } else if rows <= cols {
        rows
    } else {
        cols
    }
}

/// The test that keeps the active cells of a list.
pub open spec fn is_live() -> spec_fn(Cell) -> bool {
    |cell: Cell| !cell.is_empty()
}

/// The test that keeps the decisions of a rule that ask for a write.
pub open spec fn is_write() -> spec_fn(Option<Cell>) -> bool {
    |decision: Option<Cell>| decision is Some
}

/// The cells that a list of decisions asks to write, in the order of the
/// decisions.
pub open spec fn write_set(decisions: Seq<Option<Cell>>) -> Seq<Cell> {
    decisions.filter(is_write()).map_values(|decision: Option<Cell>| decision->Some_0)
}

/// Whether `rule` never answers with a cell.
pub open spec fn is_silent<F: Fn(Vec<Cell>, Cell) -> Option<Cell>>(rule: F) -> bool {
    forall|neighbors: Vec<Cell>, target: Cell, decision: Option<Cell>| #[trigger]
        rule.ensures((neighbors, target), decision) ==> decision is None
}

/// The mathematical model of a world: its dimensions, the side of a cell in
/// presentation units, the radius of the neighbour window, and the colour
/// at every location. Positions, the wrap-around index and the set of
/// inactive cells are functions of these.
pub struct WorldView {
    pub rows: nat,
    pub cols: nat,
    pub cell_size: nat,
    pub edge_width: nat,
    pub colors: Seq<Seq<Color>>,
}

impl WorldView {
    pub open spec fn wf(self) -> bool {
        &&& representable(self.rows, self.cols, self.cell_size)
        &&& self.edge_width <= self.rows
        &&& self.edge_width <= self.cols
        &&& has_shape(self.colors, self.rows, self.cols)
    }

    /// A world of the given dimensions in which every cell is inactive.
    pub open spec fn fresh(rows: nat, cols: nat, cell_size: nat, edge_width: nat) -> WorldView {
        WorldView {
            rows,
            cols,
            cell_size,
            edge_width,
            colors: Seq::new(rows, |r: int| Seq::new(cols, |c: int| Color::zero())),
        }
    }

    /// Whether `(row, col)` lies inside the grid.
    pub open spec fn contains(self, row: int, col: int) -> bool {
        0 <= row < self.rows && 0 <= col < self.cols
    }

    /// The top-left corner of the square of `(row, col)`: x, then y.
    pub open spec fn position(self, row: int, col: int) -> (u64, u64) {
        ((col * self.cell_size) as u64, (row * self.cell_size) as u64)
    }

    /// The cell at `(row, col)`.
    pub open spec fn cell(self, row: int, col: int) -> Cell {
        Cell {
            color: self.colors[row][col],
            top_left: self.position(row, col),
            at: (row as usize, col as usize),
        }
    }

    /// Every cell of the grid in row-major order.
    pub open spec fn all_cells(self) -> Seq<Cell> {
        Seq::new(
            self.rows * self.cols,
            |i: int| self.cell(i / (self.cols as int), i % (self.cols as int)),
        )
    }

    /// The active cells in row-major order.
    pub open spec fn live(self) -> Seq<Cell> {
        self.all_cells().filter(is_live())
    }

    /// The locations whose colour is the all-zero colour.
    pub open spec fn empty_cells(self) -> Set<(int, int)> {
        Set::new(|at: (int, int)| self.contains(at.0, at.1) && self.colors[at.0][at.1].is_empty())
    }

    /// The side of the neighbour window.
    pub open spec fn side(self) -> int {
        2 * (self.edge_width as int) + 1
    }

    /// The interior location that place `(i, j)` of the padded index
    /// stands for.
    pub open spec fn resolve(self, i: int, j: int) -> (int, int) {
        (
            mirrored(i, self.rows as int, self.edge_width as int),
            mirrored(j, self.cols as int, self.edge_width as int),
        )
    }

    /// The locations under the window centred at `(row, col)`, scanned in
    /// row-major order, the centre included.
    pub open spec fn window(self, row: int, col: int) -> Seq<(int, int)> {
        Seq::new(
            (self.side() * self.side()) as nat,
            |k: int| self.resolve(row + k / self.side(), col + k % self.side()),
        )
    }

    /// The test that keeps the locations other than `(row, col)`.
    pub open spec fn is_other(row: int, col: int) -> spec_fn((int, int)) -> bool {
        |at: (int, int)| at != (row, col)
    }

    /// The test that keeps the active locations other than `(row, col)`.
    pub open spec fn is_live_other(self, row: int, col: int) -> spec_fn((int, int)) -> bool {
        |at: (int, int)| at != (row, col) && !self.colors[at.0][at.1].is_empty()
    }

    /// The window of `(row, col)` without any place that stands for
    /// `(row, col)` itself.
    pub open spec fn neighbors(self, row: int, col: int) -> Seq<(int, int)> {
        self.window(row, col).filter(Self::is_other(row, col))
    }

    /// The active neighbours of `(row, col)` as cells, in the scan order of
    /// the window.
    pub open spec fn surroundings(self, row: int, col: int) -> Seq<Cell> {
        self.window(row, col).filter(self.is_live_other(row, col)).map_values(
            |at: (int, int)| self.cell(at.0, at.1),
        )
    }

    /// The world after `cell` has been written: the colour at its location
    /// is the cell's, and nothing else differs.
    pub open spec fn write(self, cell: Cell) -> WorldView {
        WorldView {
            colors: with_entry(self.colors, cell.at.0 as int, cell.at.1 as int, cell.color),
            ..self
        }
    }

    /// The world after the cells of `writes` have been written one after
    /// the other.
    pub open spec fn commit(self, writes: Seq<Cell>) -> WorldView
        decreases writes.len(),
    {
        if writes.len() == 0 {
            self
        } else {
            self.commit(writes.drop_last()).write(writes.last())
        }
    }

    /// Whether every cell of `writes` lies inside the grid.
    pub open spec fn accepts(self, writes: Seq<Cell>) -> bool {
        forall|i: int| 0 <= i < writes.len() ==> self.contains(
            (#[trigger] writes[i]).at.0 as int,
            writes[i].at.1 as int,
        )
    }

    /// Whether `decision` is an answer of `rule` for `target` with the
    /// active neighbours that `target` has in this world.
    pub open spec fn decides<F: Fn(Vec<Cell>, Cell) -> Option<Cell>>(
        self,
        rule: F,
        target: Cell,
        decision: Option<Cell>,
    ) -> bool {
        exists|neighbors: Vec<Cell>|
            neighbors@ == self.surroundings(target.at.0 as int, target.at.1 as int)
                && #[trigger] rule.ensures((neighbors, target), decision)
    }

    /// Whether `decisions` holds, for each active cell of this world in
    /// row-major order, an answer of `rule` for that cell.
    pub open spec fn generation<F: Fn(Vec<Cell>, Cell) -> Option<Cell>>(
        self,
        rule: F,
        decisions: Seq<Option<Cell>>,
    ) -> bool {
        &&& decisions.len() == self.live().len()
        &&& forall|i: int|
            0 <= i < decisions.len() ==> self.decides(rule, self.live()[i], #[trigger] decisions[i])
    }

    /// Whether `rule` can be run on every active cell of this world, and
    /// asks only for writes inside the grid.
    pub open spec fn admits<F: Fn(Vec<Cell>, Cell) -> Option<Cell>>(self, rule: F) -> bool {
        &&& forall|neighbors: Vec<Cell>, target: Cell|
            self.live().contains(target) && neighbors@ == self.surroundings(
                target.at.0 as int,
                target.at.1 as int,
            ) ==> #[trigger] rule.requires((neighbors, target))
        &&& forall|neighbors: Vec<Cell>, target: Cell, written: Cell|
            self.live().contains(target) && neighbors@ == self.surroundings(
                target.at.0 as int,
                target.at.1 as int,
            ) && #[trigger] rule.ensures((neighbors, target), Some(written)) ==> self.contains(
                written.at.0 as int,
                written.at.1 as int,
            )
    }
}

/// A world of inactive cells has no active cell to enumerate.
pub proof fn lemma_fresh_is_empty(rows: nat, cols: nat, cell_size: nat, edge_width: nat)
    ensures
        WorldView::fresh(rows, cols, cell_size, edge_width).live() == Seq::<Cell>::empty(),
{
    let world = WorldView::fresh(rows, cols, cell_size, edge_width);
    let all = world.all_cells();
    assert forall|i: int| 0 <= i < all.len() implies !is_live()(#[trigger] all[i]) by {
        lemma_place_of_index(rows, cols, i);
    }
    lemma_filter_none(all, is_live());
}

/// The `i`-th place of a grid in row-major order lies inside the grid.
pub proof fn lemma_place_of_index(rows: nat, cols: nat, i: int)
    requires
        0 <= i < rows * cols,
    ensures
        cols > 0,
        0 <= i / (cols as int) < rows,
        0 <= i % (cols as int) < cols,
{
    if cols == 0 {
        assert(rows * cols == 0) by (nonlinear_arith)
            requires
                cols == 0,
        ;
    }
    let d = cols as int;
    lemma_fundamental_div_mod(i, d);
    lemma_mod_bound(i, d);
    let q = i / d;
    if q >= rows {
        assert(d * q >= d * rows) by (nonlinear_arith)
            requires
                q >= rows,
                d > 0,
        ;
        assert(d * rows == rows * cols) by (nonlinear_arith)
            requires
                d == cols,
        ;
    }
    if q < 0 {
        assert(d * q <= -d) by (nonlinear_arith)
            requires
                q <= -1,
                d > 0,
        ;
    }
}

/// A rule that never answers with a cell asks for no write, so the
/// generation that it decides leaves the world, and with it the set of
/// inactive cells, as it was.
pub proof fn lemma_silent_rule_writes_nothing<F: Fn(Vec<Cell>, Cell) -> Option<Cell>>(
    world: WorldView,
    rule: F,
    decisions: Seq<Option<Cell>>,
)
    requires
        is_silent(rule),
        world.generation(rule, decisions),
    ensures
        write_set(decisions) == Seq::<Cell>::empty(),
        world.commit(write_set(decisions)) == world,
        world.commit(write_set(decisions)).empty_cells() == world.empty_cells(),
{
    assert forall|i: int| 0 <= i < decisions.len() implies !is_write()(#[trigger] decisions[i]) by {
        assert(world.decides(rule, world.live()[i], decisions[i]));
    }
    lemma_filter_none(decisions, is_write());
    assert(write_set(decisions) =~= Seq::<Cell>::empty());
}

} // verus!
