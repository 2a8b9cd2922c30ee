use crate::cell::Cell;
use crate::mirror::mirrored;
use crate::view::WorldView;
use vstd::arithmetic::div_mod::lemma_fundamental_div_mod_converse;
use vstd::prelude::*;

verus! {

/// The wrap-around index is toroidal: a place of the padded axis stands for
/// the interior index that its offset from the first interior place is
/// congruent to, modulo the length of the axis.
pub proof fn lemma_mirrored_wraps(i: int, n: int, e: int)
    requires
        0 <= e <= n,
        0 < n,
        0 <= i < n + 2 * e,
    ensures
        0 <= mirrored(i, n, e) < n,
        mirrored(i, n, e) == (i - e) % n,
{
    if i < e {
        lemma_fundamental_div_mod_converse(i - e, n, -1, n - e + i);
    } else if i < n + e {
        lemma_fundamental_div_mod_converse(i - e, n, 0, i - e);
    } else {
        lemma_fundamental_div_mod_converse(i - e, n, 1, i - n - e);
    }
}

/// Every place under the window of a cell of the grid stands for a
/// location of the grid.
pub proof fn lemma_window_stays_inside(world: WorldView, row: int, col: int, k: int)
    requires
        world.wf(),
        world.contains(row, col),
        0 <= k < world.window(row, col).len(),
    ensures
        world.contains(world.window(row, col)[k].0, world.window(row, col)[k].1),
{
    let side = world.side();
    assert(0 <= k / side < side && 0 <= k % side < side) by (nonlinear_arith)
        requires
            0 <= k < side * side,
            side > 0,
    ;
}

/// The window of a cell is the torus around it: the place `dr` rows below
/// and `dc` columns right of the centre of the window, for offsets up to
/// the radius either way, stands for the location that many rows and
/// columns away from the cell, modulo the dimensions of the grid.
pub proof fn lemma_window_is_toroidal(world: WorldView, row: int, col: int, dr: int, dc: int)
    requires
        world.wf(),
        world.contains(row, col),
        -world.edge_width <= dr <= world.edge_width,
        -world.edge_width <= dc <= world.edge_width,
    ensures
        0 <= (dr + world.edge_width) * world.side() + (dc + world.edge_width) < world.window(
            row,
            col,
        ).len(),
        world.window(row, col)[(dr + world.edge_width) * world.side() + (dc + world.edge_width)]
            == ((row + dr) % (world.rows as int), (col + dc) % (world.cols as int)),
{
    let e = world.edge_width as int;
    let side = world.side();
    let i = dr + e;
    let j = dc + e;
    let k = i * side + j;
    assert(0 <= i * side && i * side + side <= side * side) by (nonlinear_arith)
        requires
            0 <= i < side,
    ;
    lemma_fundamental_div_mod_converse(k, side, i, j);
    lemma_mirrored_wraps(row + i, world.rows as int, e);
    lemma_mirrored_wraps(col + j, world.cols as int, e);
}

/// No neighbour of a cell is the cell itself, whatever the radius, and no
/// cell handed to a rule as a neighbour is.
pub proof fn lemma_neighbors_exclude_center(world: WorldView, row: int, col: int)
    requires
        world.wf(),
        world.contains(row, col),
    ensures
        !world.neighbors(row, col).contains((row, col)),
        forall|i: int|
            0 <= i < world.surroundings(row, col).len() ==> (#[trigger] world.surroundings(
                row,
                col,
            )[i]).at != (row as usize, col as usize),
{
    let window = world.window(row, col);
    let other = WorldView::is_other(row, col);
    let neighbors = world.neighbors(row, col);
    assert forall|i: int| 0 <= i < neighbors.len() implies neighbors[i] != (row, col) by {
        window.lemma_filter_pred(other, i);
    }
    let keep = world.is_live_other(row, col);
    let kept = window.filter(keep);
    assert(world.rows <= usize::MAX && world.cols <= usize::MAX) by (nonlinear_arith)
        requires
            288 * (world.rows * world.cols) <= isize::MAX,
            world.rows >= 1,
            world.cols >= 1,
    ;
    assert forall|i: int| 0 <= i < world.surroundings(row, col).len() implies (
    #[trigger] world.surroundings(row, col)[i]).at != (row as usize, col as usize) by {
        window.lemma_filter_pred(keep, i);
        window.lemma_filter_contains_rev(keep, kept[i]);
        let k = choose|k: int| 0 <= k < window.len() && window[k] == kept[i];
        lemma_window_stays_inside(world, row, col, k);
        assert(kept[i] != (row, col));
        assert(world.surroundings(row, col)[i] == world.cell(kept[i].0, kept[i].1));
    }
}

/// With the radius 1 the window of the corner cell `(0, 0)` wraps round
/// the grid: its neighbours hold the last cell of the first column, the
/// last cell of the first row and the cell of the opposite corner,
/// wherever that is another cell than `(0, 0)`.
pub proof fn lemma_corner_wraps(world: WorldView)
    requires
        world.wf(),
        world.edge_width == 1,
    ensures
        !world.neighbors(0, 0).contains((0int, 0int)),
        world.rows >= 2 ==> world.neighbors(0, 0).contains((world.rows - 1, 0)),
        world.cols >= 2 ==> world.neighbors(0, 0).contains((0, world.cols - 1)),
        world.rows >= 2 || world.cols >= 2 ==> world.neighbors(0, 0).contains(
            (world.rows - 1, world.cols - 1),
        ),
{
    lemma_neighbors_exclude_center(world, 0, 0);
    let window = world.window(0, 0);
    let other = WorldView::is_other(0, 0);
    assert(world.side() == 3);
    assert(world.side() * world.side() == 9) by (nonlinear_arith)
        requires
            world.side() == 3,
    ;
    assert(window[0] == (world.rows - 1, world.cols - 1));
    assert(window[1] == (world.rows - 1, 0int));
    assert(window[3] == (0int, world.cols - 1));
    if world.rows >= 2 {
        window.lemma_filter_contains(other, 1);
    }
    if world.cols >= 2 {
        window.lemma_filter_contains(other, 3);
    }
    if world.rows >= 2 || world.cols >= 2 {
        window.lemma_filter_contains(other, 0);
    }
}

/// An active cell among the wrapped neighbours of the corner is handed to
/// the rule: with the radius 1, the active neighbours of `(0, 0)` hold the
/// cell at `at` for each of the three wrapped locations that is active and
/// not `(0, 0)` itself.
pub proof fn lemma_corner_sees_live_wrapped(world: WorldView, at: (int, int))
    requires
        world.wf(),
        world.edge_width == 1,
        world.rows >= 1,
        world.cols >= 1,
        at == (world.rows - 1, 0int) || at == (0int, world.cols - 1) || at == (
            world.rows - 1,
            world.cols - 1,
        ),
        at != (0int, 0int),
        !world.colors[at.0][at.1].is_empty(),
    ensures
        world.surroundings(0, 0).contains(world.cell(at.0, at.1)),
{
    let window = world.window(0, 0);
    let keep = world.is_live_other(0, 0);
    let cell_of = |p: (int, int)| world.cell(p.0, p.1);
    assert(world.side() == 3);
    assert(world.side() * world.side() == 9) by (nonlinear_arith)
        requires
            world.side() == 3,
    ;
    assert(window[0] == (world.rows - 1, world.cols - 1));
    assert(window[1] == (world.rows - 1, 0int));
    assert(window[3] == (0int, world.cols - 1));
    let k = if at == window[0] {
        0int
    } else if at == window[1] {
        1int
    } else {
        3int
    };
    window.lemma_filter_contains(keep, k);
    let kept = window.filter(keep);
    let j = choose|j: int| 0 <= j < kept.len() && kept[j] == at;
    assert(kept.map_values(cell_of)[j] == world.cell(at.0, at.1));
}

/// Writing a cell changes the set of inactive cells at the location of
/// the cell alone: that location joins the set where the colour written is
/// the all-zero colour and leaves it otherwise.
pub proof fn lemma_write_moves_one_cell(world: WorldView, cell: Cell)
    requires
        world.wf(),
        world.contains(cell.at.0 as int, cell.at.1 as int),
    ensures
        world.write(cell).wf(),
        world.write(cell).empty_cells() == if cell.color.is_empty() {
            world.empty_cells().insert((cell.at.0 as int, cell.at.1 as int))
        } else {
            world.empty_cells().remove((cell.at.0 as int, cell.at.1 as int))
        },
{
    let at = (cell.at.0 as int, cell.at.1 as int);
    if cell.color.is_empty() {
        assert(world.write(cell).empty_cells() =~= world.empty_cells().insert(at));
    } else {
        assert(world.write(cell).empty_cells() =~= world.empty_cells().remove(at));
    }
}

/// Committing writes that lie inside the grid keeps the dimensions, the
/// cell size and the radius, and leaves a well-formed world.
pub proof fn lemma_commit_keeps_shape(world: WorldView, writes: Seq<Cell>)
    requires
        world.wf(),
        world.accepts(writes),
    ensures
        world.commit(writes).wf(),
        world.commit(writes).rows == world.rows,
        world.commit(writes).cols == world.cols,
        world.commit(writes).cell_size == world.cell_size,
        world.commit(writes).edge_width == world.edge_width,
    decreases writes.len(),
{
    if writes.len() > 0 {
        lemma_commit_keeps_shape(world, writes.drop_last());
    }
}

} // verus!
