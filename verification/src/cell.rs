use vstd::prelude::*;
use vstd::std_specs::convert::FromSpecImpl;

verus! {

/// An RGBA colour. Each channel is an unsigned 32-bit intensity; the colour
/// whose four channels are all zero marks an inactive cell.
#[derive(Clone, Copy, Debug, PartialEq, Eq, Structural)]
pub struct Color {
    pub r: u32,
    pub g: u32,
    pub b: u32,
    pub a: u32,
}

impl Color {
    /// The colour of an inactive cell.
    pub open spec fn zero() -> Color {
        Color { r: 0, g: 0, b: 0, a: 0 }
    }

    /// Liveness predicate of the grid: a colour is empty exactly when it is
    /// the all-zero colour.
    pub open spec fn is_empty(self) -> bool {
        self == Color::zero()
    }

    pub fn new(r: u32, g: u32, b: u32, a: u32) -> (color: Color)
        ensures
            color == (Color { r, g, b, a }),
    {
        Color { r, g, b, a }
    }

    /// The all-zero colour.
    pub fn dead() -> (color: Color)
        ensures
            color == Color::zero(),
    {
        Color { r: 0, g: 0, b: 0, a: 0 }
    }

    /// Tells whether this is the all-zero colour.
    pub fn is_dead(&self) -> (dead: bool)
        ensures
            dead == self.is_empty(),
    {
        self.r == 0 && self.g == 0 && self.b == 0 && self.a == 0
    }
}

/// The state vector that the grid stores for one location: four colour
/// channels and the two spatial coordinates derived from the location.
#[derive(Clone, Copy, Debug, PartialEq, Eq, Structural)]
pub struct WPoint {
    pub color: Color,
    pub x: u64,
    pub y: u64,
}

/// A grid location: row, then column.
pub type MPoint = (usize, usize);

/// A materialised view of one grid location: its colour, the top-left corner
/// of its square in presentation units (x, then y), and its row and column.
#[derive(Clone, Copy, Debug, PartialEq, Eq)]
pub struct Cell {
    pub color: Color,
    pub top_left: (u64, u64),
    pub at: (usize, usize),
}

impl Cell {
    /// The cell that a state vector stored at `(row, col)` stands for.
    pub open spec fn of_state(state: WPoint, row: usize, col: usize) -> Cell {
        Cell { color: state.color, top_left: (state.x, state.y), at: (row, col) }
    }

    /// The state vector that writing this cell stores.
    pub open spec fn state(self) -> WPoint {
        WPoint { color: self.color, x: self.top_left.0, y: self.top_left.1 }
    }

    /// A cell is empty exactly when its colour is.
    pub open spec fn is_empty(self) -> bool {
        self.color.is_empty()
    }

    /// Tells whether the cell is inactive.
    pub fn is_dead(&self) -> (dead: bool)
        ensures
            dead == self.is_empty(),
    {
        self.color.is_dead()
    }
}

impl From<(WPoint, usize, usize)> for Cell {
    fn from(repr: (WPoint, usize, usize)) -> (cell: Cell) {
        let (w_point, row, col) = repr;
        Cell { color: w_point.color, top_left: (w_point.x, w_point.y), at: (row, col) }
    }
}

impl FromSpecImpl<(WPoint, usize, usize)> for Cell {
    open spec fn obeys_from_spec() -> bool {
        true
    }

    open spec fn from_spec(repr: (WPoint, usize, usize)) -> Cell {
        Cell::of_state(repr.0, repr.1, repr.2)
    }
}

impl From<Cell> for WPoint {
    fn from(cell: Cell) -> (w_point: WPoint) {
        WPoint { color: cell.color, x: cell.top_left.0, y: cell.top_left.1 }
    }
}

impl FromSpecImpl<Cell> for WPoint {
    open spec fn obeys_from_spec() -> bool {
        true
    }

    open spec fn from_spec(cell: Cell) -> WPoint {
        cell.state()
    }
}

impl From<Cell> for (WPoint, usize, usize) {
    fn from(cell: Cell) -> (repr: (WPoint, usize, usize)) {
        (WPoint::from(cell), cell.at.0, cell.at.1)
    }
}

impl FromSpecImpl<Cell> for (WPoint, usize, usize) {
    open spec fn obeys_from_spec() -> bool {
        true
    }

    open spec fn from_spec(cell: Cell) -> (WPoint, usize, usize) {
        (cell.state(), cell.at.0, cell.at.1)
    }
}

} // verus!
