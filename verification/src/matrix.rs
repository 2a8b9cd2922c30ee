//! The dense storage of a world, kept in `nalgebra` matrices. The verifier
//! does not look inside them: what a matrix holds has a name, and the
//! contracts of the functions that build, read and change a matrix are
//! taken from `nalgebra` as they stand here, without proof.
use crate::cell::{MPoint, WPoint};
use vstd::prelude::*;

verus! {

/// A dense matrix of state vectors, held in a `nalgebra::DMatrix`. What it
/// holds is known through `w_entries` alone.
#[verifier::external_body]
pub struct WMatrix {
    inner: nalgebra::DMatrix<WPoint>,
}

/// A dense matrix of grid locations, held in a `nalgebra::DMatrix`. What
/// it holds is known through `m_entries` alone.
#[verifier::external_body]
pub struct MMatrix {
    inner: nalgebra::DMatrix<MPoint>,
}

/// The entries of a state matrix, row by row.
pub uninterp spec fn w_entries(m: WMatrix) -> Seq<Seq<WPoint>>;

/// The entries of a location matrix, row by row.
pub uninterp spec fn m_entries(m: MMatrix) -> Seq<Seq<MPoint>>;

/// A rectangular table of `nrows` rows of `ncols` entries each.
pub open spec fn has_shape<T>(entries: Seq<Seq<T>>, nrows: nat, ncols: nat) -> bool {
    &&& entries.len() == nrows
    &&& forall|r: int| 0 <= r < nrows ==> (#[trigger] entries[r]).len() == ncols
}

/// The table that differs from `entries` at `(row, col)` alone, where it
/// holds `value`.
pub open spec fn with_entry<T>(entries: Seq<Seq<T>>, row: int, col: int, value: T) -> Seq<Seq<T>> {
    entries.update(row, entries[row].update(col, value))
}

/// Calls `nalgebra::DMatrix::from_element`, which gives a matrix of `nrows`
/// by `ncols` entries, each a copy of `elem`. It collects the entries into
/// a vector, so they must fit the address space at 32 bytes each.
#[verifier::external_body]
pub(crate) fn w_filled(nrows: usize, ncols: usize, elem: WPoint) -> (m: WMatrix)
    requires
        32 * (nrows * ncols) <= isize::MAX,
    ensures
        w_entries(m) == Seq::new(nrows as nat, |r: int| Seq::new(ncols as nat, |c: int| elem)),
{
    WMatrix { inner: nalgebra::DMatrix::from_element(nrows, ncols, elem) }
}

/// Reads a `nalgebra::DMatrix` through its `Index<(usize, usize)>`, which
/// gives the entry at `(row, col)` and panics outside the matrix.
#[verifier::external_body]
pub(crate) fn w_get(m: &WMatrix, row: usize, col: usize) -> (value: WPoint)
    requires
        row < w_entries(*m).len(),
        col < w_entries(*m)[row as int].len(),
    ensures
        value == w_entries(*m)[row as int][col as int],
{
    m.inner[(row, col)]
}

/// Assigns through the `IndexMut<(usize, usize)>` of a `nalgebra::DMatrix`,
/// which hands out the entry at `(row, col)` alone and panics outside the
/// matrix: that entry becomes `value` and no other entry changes.
#[verifier::external_body]
pub(crate) fn w_set(m: &mut WMatrix, row: usize, col: usize, value: WPoint)
    requires
        row < w_entries(*old(m)).len(),
        col < w_entries(*old(m))[row as int].len(),
    ensures
        w_entries(*final(m)) == with_entry(w_entries(*old(m)), row as int, col as int, value),
{
    m.inner[(row, col)] = value;
}

/// Calls `nalgebra::DMatrix::from_element`, which gives a matrix of `nrows`
/// by `ncols` entries, each a copy of `elem`. It collects the entries into
/// a vector, so they must fit the address space at 16 bytes each.
#[verifier::external_body]
pub(crate) fn m_filled(nrows: usize, ncols: usize, elem: MPoint) -> (m: MMatrix)
    requires
        16 * (nrows * ncols) <= isize::MAX,
    ensures
        m_entries(m) == Seq::new(nrows as nat, |r: int| Seq::new(ncols as nat, |c: int| elem)),
{
    MMatrix { inner: nalgebra::DMatrix::from_element(nrows, ncols, elem) }
}

/// Reads a `nalgebra::DMatrix` through its `Index<(usize, usize)>`, which
/// gives the entry at `(row, col)` and panics outside the matrix.
#[verifier::external_body]
pub(crate) fn m_get(m: &MMatrix, row: usize, col: usize) -> (value: MPoint)
    requires
        row < m_entries(*m).len(),
        col < m_entries(*m)[row as int].len(),
    ensures
        value == m_entries(*m)[row as int][col as int],
{
    m.inner[(row, col)]
}

/// Assigns through the `IndexMut<(usize, usize)>` of a `nalgebra::DMatrix`,
/// which hands out the entry at `(row, col)` alone and panics outside the
/// matrix: that entry becomes `value` and no other entry changes.
#[verifier::external_body]
pub(crate) fn m_set(m: &mut MMatrix, row: usize, col: usize, value: MPoint)
    requires
        row < m_entries(*old(m)).len(),
        col < m_entries(*old(m))[row as int].len(),
    ensures
        m_entries(*final(m)) == with_entry(m_entries(*old(m)), row as int, col as int, value),
{
    m.inner[(row, col)] = value;
}

} // verus!
