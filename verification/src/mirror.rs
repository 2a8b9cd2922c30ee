use crate::cell::MPoint;
use crate::matrix::{has_shape, m_entries, m_filled, m_get, m_set, MMatrix};
use vstd::prelude::*;

verus! {

/// The interior index that place `i` stands for, along one axis of length
/// `n` padded by `e` places on either side: the first `e` places alias the
/// last `e` interior ones, the last `e` places alias the first `e`, and the
/// places between are the interior itself.
pub open spec fn mirrored(i: int, n: int, e: int) -> int {
    if i < e {
        n - e + i
    } else if i < n + e {
        i - e
    } else {
        i - n - e
    }
}

/// A coordinate matrix: place `(r, c)` holds the pair `(r, c)`.
pub open spec fn is_identity(entries: Seq<Seq<MPoint>>, rows: nat, cols: nat) -> bool {
    &&& has_shape(entries, rows, cols)
    &&& forall|r: int, c: int|
        0 <= r < rows && 0 <= c < cols ==> #[trigger] entries[r][c] == (r as usize, c as usize)
}

/// A wrap-around index of radius `e` over a grid of `rows` by `cols`:
/// place `(i, j)` of the padded matrix holds the interior location that it
/// stands for.
pub open spec fn is_mirror(entries: Seq<Seq<MPoint>>, rows: nat, cols: nat, e: nat) -> bool {
    &&& has_shape(entries, rows + 2 * e, cols + 2 * e)
    &&& forall|i: int, j: int|
        0 <= i < rows + 2 * e && 0 <= j < cols + 2 * e ==> #[trigger] entries[i][j] == (
            mirrored(i, rows as int, e as int) as usize,
            mirrored(j, cols as int, e as int) as usize,
        )
}

/// Whether place `(i, j)` lies in the block of `height` by `width` places
/// whose first place is `(row, col)`.
pub open spec fn in_block(i: int, j: int, row: int, col: int, height: int, width: int) -> bool {
    row <= i < row + height && col <= j < col + width
}

/// A padded matrix never holds more than nine times the places of the
/// grid, so it fits the address space where nine times the grid does.
pub proof fn lemma_padded_fits(rows: nat, cols: nat, e: nat)
    requires
        e <= rows <= usize::MAX,
        e <= cols <= usize::MAX,
        288 * (rows * cols) <= isize::MAX,
    ensures
        16 * ((rows + 2 * e) * (cols + 2 * e)) <= isize::MAX,
        32 * (rows * cols) <= isize::MAX,
        rows + 2 * e <= usize::MAX,
        cols + 2 * e <= usize::MAX,
        rows * cols <= usize::MAX,
{
    assert((rows + 2 * e) * (cols + 2 * e) <= 9 * (rows * cols)) by (nonlinear_arith)
        requires
            e <= rows,
            e <= cols,
    ;
    assert(0 <= rows * cols) by (nonlinear_arith);
    if rows + 2 * e > 0 && cols + 2 * e > 0 {
        assert(rows + 2 * e <= (rows + 2 * e) * (cols + 2 * e)) by (nonlinear_arith)
            requires
                cols + 2 * e >= 1,
        ;
        assert(cols + 2 * e <= (rows + 2 * e) * (cols + 2 * e)) by (nonlinear_arith)
            requires
                rows + 2 * e >= 1,
        ;
    }
}

/// The coordinate matrix of a grid of `rows` by `cols`.
pub(crate) fn build_locations(rows: usize, cols: usize) -> (locations: MMatrix)
    requires
        16 * (rows * cols) <= isize::MAX,
    ensures
        is_identity(m_entries(locations), rows as nat, cols as nat),
{
    let mut locations = m_filled(rows, cols, (0, 0));
    let mut r: usize = 0;
    while r < rows
        invariant
            r <= rows,
            has_shape(m_entries(locations), rows as nat, cols as nat),
            forall|i: int, j: int|
                0 <= i < r && 0 <= j < cols ==> #[trigger] m_entries(locations)[i][j] == (
                    i as usize,
                    j as usize,
                ),
        decreases rows - r,
    {
        let mut c: usize = 0;
        while c < cols
            invariant
                r < rows,
                c <= cols,
                has_shape(m_entries(locations), rows as nat, cols as nat),
                forall|i: int, j: int|
                    (0 <= i < r && 0 <= j < cols) || (i == r && 0 <= j < c)
                        ==> #[trigger] m_entries(locations)[i][j] == (i as usize, j as usize),
            decreases cols - c,
        {
            m_set(&mut locations, r, c, (r, c));
            c += 1;
        }
        r += 1;
    }
    locations
}

/// Copies the block of `size` (rows, then columns) that starts at `from`
/// in `src` onto the block that starts at `to` in `dst`.
fn copy_block(
    dst: &mut MMatrix,
    src: &MMatrix,
    from: (usize, usize),
    to: (usize, usize),
    size: (usize, usize),
    Ghost(shape): Ghost<(nat, nat)>,
    Ghost(source): Ghost<(nat, nat)>,
)
    requires
        has_shape(m_entries(*old(dst)), shape.0, shape.1),
        has_shape(m_entries(*src), source.0, source.1),
        from.0 + size.0 <= source.0 <= usize::MAX,
        from.1 + size.1 <= source.1 <= usize::MAX,
        to.0 + size.0 <= shape.0 <= usize::MAX,
        to.1 + size.1 <= shape.1 <= usize::MAX,
    ensures
        has_shape(m_entries(*final(dst)), shape.0, shape.1),
        forall|i: int, j: int|
            0 <= i < shape.0 && 0 <= j < shape.1 ==> #[trigger] m_entries(*final(dst))[i][j] == (
                if in_block(i, j, to.0 as int, to.1 as int, size.0 as int, size.1 as int) {
                    m_entries(*src)[i - to.0 + from.0][j - to.1 + from.1]
                } else {
                    m_entries(*old(dst))[i][j]
                }),
{
    let ghost before = m_entries(*dst);
    let mut a: usize = 0;
    while a < size.0
        invariant
            a <= size.0,
            has_shape(m_entries(*dst), shape.0, shape.1),
            has_shape(before, shape.0, shape.1),
            has_shape(m_entries(*src), source.0, source.1),
            from.0 + size.0 <= source.0 <= usize::MAX,
            from.1 + size.1 <= source.1 <= usize::MAX,
            to.0 + size.0 <= shape.0 <= usize::MAX,
            to.1 + size.1 <= shape.1 <= usize::MAX,
            forall|i: int, j: int|
                0 <= i < shape.0 && 0 <= j < shape.1 ==> #[trigger] m_entries(*dst)[i][j] == (
                    if in_block(i, j, to.0 as int, to.1 as int, a as int, size.1 as int) {
                        m_entries(*src)[i - to.0 + from.0][j - to.1 + from.1]
                    } else {
                        before[i][j]
                    }),
        decreases size.0 - a,
    {
        let mut b: usize = 0;
        while b < size.1
            invariant
                a < size.0,
                b <= size.1,
                has_shape(m_entries(*dst), shape.0, shape.1),
                has_shape(before, shape.0, shape.1),
                has_shape(m_entries(*src), source.0, source.1),
                from.0 + size.0 <= source.0 <= usize::MAX,
                from.1 + size.1 <= source.1 <= usize::MAX,
                to.0 + size.0 <= shape.0 <= usize::MAX,
                to.1 + size.1 <= shape.1 <= usize::MAX,
                forall|i: int, j: int|
                    0 <= i < shape.0 && 0 <= j < shape.1 ==> #[trigger] m_entries(*dst)[i][j] == (
                        if in_block(i, j, to.0 as int, to.1 as int, a as int, size.1 as int)
                            || in_block(i, j, to.0 + a, to.1 as int, 1, b as int) {
                            m_entries(*src)[i - to.0 + from.0][j - to.1 + from.1]
                        } else {
                            before[i][j]
                        }),
            decreases size.1 - b,
        {
            assert(m_entries(*src)[from.0 + a].len() == source.1);
            let value = m_get(src, from.0 + a, from.1 + b);
            assert(m_entries(*dst)[to.0 + a].len() == shape.1);
            m_set(dst, to.0 + a, to.1 + b, value);
            b += 1;
        }
        a += 1;
    }
}

/// Builds the wrap-around index of radius `edge_width` from the coordinate
/// matrix of a grid of `rows` by `cols`: the interior is the coordinate
/// matrix itself, each of the four bands beside it repeats the interior
/// band on the opposite side, and each corner block repeats the interior
/// corner diagonally opposite.
pub(crate) fn build_mirror(locations: &MMatrix, rows: usize, cols: usize, edge_width: usize) -> (index:
    MMatrix)
    requires
        is_identity(m_entries(*locations), rows as nat, cols as nat),
        edge_width <= rows,
        edge_width <= cols,
        288 * (rows * cols) <= isize::MAX,
    ensures
        is_mirror(m_entries(index), rows as nat, cols as nat, edge_width as nat),
{
    proof {
        lemma_padded_fits(rows as nat, cols as nat, edge_width as nat);
    }
    let e = edge_width;
    let ghost shape = ((rows + 2 * e) as nat, (cols + 2 * e) as nat);
    let ghost source = (rows as nat, cols as nat);
    let mut index = m_filled(rows + 2 * e, cols + 2 * e, (0, 0));
    // the interior
    copy_block(&mut index, locations, (0, 0), (e, e), (rows, cols), Ghost(shape), Ghost(source));
    // the bands: top, bottom, left, right
    copy_block(&mut index, locations, (rows - e, 0), (0, e), (e, cols), Ghost(shape), Ghost(source));
    copy_block(&mut index, locations, (0, 0), (rows + e, e), (e, cols), Ghost(shape), Ghost(source));
    copy_block(&mut index, locations, (0, cols - e), (e, 0), (rows, e), Ghost(shape), Ghost(source));
    copy_block(&mut index, locations, (0, 0), (e, cols + e), (rows, e), Ghost(shape), Ghost(source));
    // the corners: top left, top right, bottom left, bottom right
    copy_block(&mut index, locations, (rows - e, cols - e), (0, 0), (e, e), Ghost(shape), Ghost(source));
    copy_block(&mut index, locations, (rows - e, 0), (0, cols + e), (e, e), Ghost(shape), Ghost(source));
    copy_block(&mut index, locations, (0, cols - e), (rows + e, 0), (e, e), Ghost(shape), Ghost(source));
    copy_block(&mut index, locations, (0, 0), (rows + e, cols + e), (e, e), Ghost(shape), Ghost(source));
    index
}

} // verus!
