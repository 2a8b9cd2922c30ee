use crate::cell::{Cell, Color};
use crate::view::{representable, write_set, WorldView};
use crate::world::World;
use vstd::prelude::*;

verus! {

/// What the pointer does to the cell under it while a button is held.
#[derive(Clone, Copy, Debug, PartialEq, Eq, Structural)]
pub enum CursorAction {
    Paint,
    Clear,
}

/// Whether a button went down or came up.
#[derive(Clone, Copy, Debug, PartialEq, Eq, Structural)]
pub enum ButtonState {
    Press,
    Release,
}

/// The buttons that the controller tells apart.
#[derive(Clone, Copy, Debug, PartialEq, Eq, Structural)]
pub enum Button {
    MouseLeft,
    MouseRight,
    Right,
    Left,
    Up,
    Down,
    Space,
    C,
    Other,
}

/// An input to the controller, decoded into plain values.
#[derive(Clone, Copy, Debug, PartialEq, Eq)]
pub enum Event {
    /// The window took a new size, which holds `rows` by `cols` cells of
    /// the side `cell_size`.
    Resize { rows: usize, cols: usize, cell_size: u64 },
    /// The pointer moved to `(x, y)`, in presentation units.
    MouseCursor { x: u64, y: u64 },
    /// The wheel turned.
    MouseScroll,
    /// A button changed its state.
    Button { state: ButtonState, button: Button },
}

/// The model of a controller: the world it drives, the radius it asks the
/// world for, the cursor with its palette, the action of a held button,
/// and the pace of the simulation.
pub struct ControllerView {
    pub world: WorldView,
    pub frame_size: nat,
    pub cursor: Option<Cell>,
    pub colors: Seq<Color>,
    pub next_color: nat,
    pub action: Option<CursorAction>,
    pub paused: bool,
    pub speed: int,
    pub paint: Color,
}

/// The cell with the all-zero colour at the place of `cell`.
pub open spec fn cleared(cell: Cell) -> Cell {
    Cell { color: Color::zero(), ..cell }
}

/// The radius after one step down: one less, but never below 1.
pub open spec fn narrowed(frame_size: nat) -> nat {
    if frame_size > 2 {
        (frame_size - 1) as nat
    } else {
        1
    }
}

/// What the rule of the simulation decides for `target`, given whether it
/// is alive and how many of its neighbours are: a crowded or a lonely live
/// cell dies, a cell that is not alive and has three to four neighbours
/// alive for each ring of the window lights up in the colour `paint`, and
/// everything else stays.
pub open spec fn fate(frame_size: nat, alive: bool, neighbors_alive: nat, target: Cell, paint: Color)
    -> Option<Cell> {
    if neighbors_alive >= frame_size * 4 {
        if alive {
            Some(cleared(target))
        } else {
            None
        }
    } else if neighbors_alive >= frame_size * 3 {
        if !alive {
            Some(Cell { color: paint, ..target })
        } else {
            None
        }
    } else if neighbors_alive < frame_size * 2 {
        if alive {
            Some(cleared(target))
        } else {
            None
        }
    } else {
        None
    }
}

/// Decides the fate of `target` as `fate` says.
pub fn decide(
    frame_size: usize,
    alive: bool,
    neighbors_alive: usize,
    target: Cell,
    paint: Color,
) -> (decision: Option<Cell>)
    ensures
        decision == fate(frame_size as nat, alive, neighbors_alive as nat, target, paint),
{
    let crowded = match frame_size.checked_mul(4) {
        Some(bound) => neighbors_alive >= bound,
        None => false,
    };
    let fertile = match frame_size.checked_mul(3) {
        Some(bound) => neighbors_alive >= bound,
        None => false,
    };
    let lonely = match frame_size.checked_mul(2) {
        Some(bound) => neighbors_alive < bound,
        None => true,
    };
    if crowded {
        if alive {
            Some(Cell { color: Color::dead(), top_left: target.top_left, at: target.at })
        } else {
            None
        }
    } else if fertile {
        if !alive {
            Some(Cell { color: paint, top_left: target.top_left, at: target.at })
        } else {
            None
        }
    } else if lonely {
        if alive {
            Some(Cell { color: Color::dead(), top_left: target.top_left, at: target.at })
        } else {
            None
        }
    } else {
        None
    }
}

impl ControllerView {
    /// Whether the cursor stands on a cell of the world.
    pub open spec fn cursor_inside(self) -> bool {
        self.cursor is Some && self.world.contains(
            self.cursor->Some_0.at.0 as int,
            self.cursor->Some_0.at.1 as int,
        )
    }

    /// Whether the world can take the radius `frame_size`.
    pub open spec fn frame_fits(self, frame_size: nat) -> bool {
        frame_size <= self.world.rows && frame_size <= self.world.cols
    }

    /// The inputs that the controller can handle in this state.
    pub open spec fn accepts(self, event: Event) -> bool {
        match event {
            Event::Resize { rows, cols, cell_size } => representable(
                rows as nat,
                cols as nat,
                cell_size as nat,
            ) && self.frame_size <= rows && self.frame_size <= cols,
            Event::MouseCursor { x, y } => self.world.cell_size > 0 && (self.action is Some
                ==> self.cursor_inside()),
            Event::MouseScroll => true,
            Event::Button { state, button } => match button {
                Button::MouseLeft => state == ButtonState::Press && self.cursor is Some
                    ==> self.cursor_inside(),
                Button::MouseRight => state == ButtonState::Press ==> self.cursor_inside(),
                Button::Right => self.speed < isize::MAX,
                Button::Left => self.speed > isize::MIN,
                Button::Up => self.frame_fits(self.frame_size + 1),
                Button::Down => self.frame_fits(narrowed(self.frame_size)),
                Button::C => self.frame_fits(self.frame_size),
                Button::Space => true,
                Button::Other => true,
            },
        }
    }

    /// The world after the held button has acted on the cell under the
    /// cursor.
    pub open spec fn acted(self) -> WorldView {
        match self.action {
            Some(CursorAction::Paint) => self.world.write(self.cursor->Some_0),
            Some(CursorAction::Clear) => self.world.write(cleared(self.cursor->Some_0)),
            None => self.world,
        }
    }

    /// The cursor after the pointer has moved to `(x, y)` over `world`: it
    /// jumps to the cell under the pointer and keeps its colour, or takes
    /// the paint colour where there was no cursor; over no cell it stays.
    pub open spec fn moved(self, world: WorldView, x: u64, y: u64) -> Option<Cell> {
        let row = y as int / world.cell_size as int;
        let col = x as int / world.cell_size as int;
        if world.contains(row, col) {
            Some(
                Cell {
                    color: match self.cursor {
                        Some(cursor) => cursor.color,
                        None => self.paint,
                    },
                    ..world.cell(row, col)
                },
            )
        } else {
            self.cursor
        }
    }

    /// The state after the wheel has turned: a cursor takes the next
    /// colour of the palette, and at the end of the palette keeps its
    /// colour while the palette starts over.
    pub open spec fn scrolled(self) -> ControllerView {
        match self.cursor {
            Some(cursor) => if self.next_color < self.colors.len() {
                ControllerView {
                    cursor: Some(Cell { color: self.colors[self.next_color as int], ..cursor }),
                    next_color: self.next_color + 1,
                    ..self
                }
            } else {
                ControllerView { next_color: 0, ..self }
            },
            None => self,
        }
    }

    /// The world with the radius `frame_size`.
    pub open spec fn framed(self, frame_size: nat) -> ControllerView {
        ControllerView {
            world: WorldView { edge_width: frame_size, ..self.world },
            frame_size,
            ..self
        }
    }

    /// The state after a button has changed its state.
    pub open spec fn pressed(self, state: ButtonState, button: Button) -> ControllerView {
        match button {
            Button::MouseLeft => if state == ButtonState::Press {
                ControllerView {
                    action: Some(CursorAction::Paint),
                    world: match self.cursor {
                        Some(cursor) => self.world.write(cursor),
                        None => self.world,
                    },
                    ..self
                }
            } else {
                ControllerView { action: None, ..self }
            },
            Button::MouseRight => if state == ButtonState::Press {
                ControllerView {
                    action: Some(CursorAction::Clear),
                    world: self.world.write(cleared(self.cursor->Some_0)),
                    ..self
                }
            } else {
                ControllerView { action: None, ..self }
            },
            Button::Right => ControllerView { speed: self.speed + 1, ..self },
            Button::Left => ControllerView { speed: self.speed - 1, ..self },
            Button::Up => self.framed(self.frame_size + 1),
            Button::Down => self.framed(narrowed(self.frame_size)),
            Button::Space => ControllerView { paused: state == ButtonState::Release, ..self },
            Button::C => ControllerView {
                world: WorldView::fresh(
                    self.world.rows,
                    self.world.cols,
                    self.world.cell_size,
                    self.frame_size,
                ),
                ..self
            },
            Button::Other => self,
        }
    }

    /// The state after `event`.
    pub open spec fn handle(self, event: Event) -> ControllerView {
        match event {
            Event::Resize { rows, cols, cell_size } => ControllerView {
                world: WorldView::fresh(rows as nat, cols as nat, cell_size as nat, self.frame_size),
                ..self
            },
            Event::MouseCursor { x, y } => ControllerView {
                world: self.acted(),
                cursor: self.moved(self.acted(), x, y),
                ..self
            },
            Event::MouseScroll => self.scrolled(),
            Event::Button { state, button } => self.pressed(state, button),
        }
    }
}

/// Drives a world from decoded inputs: it paints and clears cells under a
/// cursor, reconfigures the world, and runs the simulation while it is not
/// paused.
pub struct WorldController {
    world: World,
    frame_size: usize,
    cursor: Option<Cell>,
    cursor_colors: Vec<Color>,
    next_color: usize,
    cursor_action: Option<CursorAction>,
    paused: bool,
    speed: isize,
    paint: Color,
}

impl View for WorldController {
    type V = ControllerView;

    closed spec fn view(&self) -> ControllerView {
        ControllerView {
            world: self.world@,
            frame_size: self.frame_size as nat,
            cursor: self.cursor,
            colors: self.cursor_colors@,
            next_color: self.next_color as nat,
            action: self.cursor_action,
            paused: self.paused,
            speed: self.speed as int,
            paint: self.paint,
        }
    }
}

impl WorldController {
    /// Whether the world that the controller drives is well-formed.
    pub closed spec fn wf(&self) -> bool {
        self.world.wf()
    }

    /// A paused controller over a world without cells, with no cursor, the
    /// radius 1 and the speed 1. `paint` is the colour of a fresh cursor and
    /// of a cell that lights up; `cursor_colors` is the palette that the
    /// wheel runs through.
    pub fn new(paint: Color, cursor_colors: Vec<Color>) -> (controller: WorldController)
        ensures
            controller.wf(),
            controller@ == (ControllerView {
                world: WorldView::fresh(0, 0, 0, 0),
                frame_size: 1,
                cursor: None,
                colors: cursor_colors@,
                next_color: 0,
                action: None,
                paused: true,
                speed: 1,
                paint,
            }),
    {
        WorldController {
            world: World::new(0, 0, 0),
            frame_size: 1,
            cursor: None,
            cursor_colors,
            next_color: 0,
            cursor_action: None,
            paused: true,
            speed: 1,
            paint,
        }
    }

    /// The radius that the controller asks the world for.
    pub fn frame_size(&self) -> (frame_size: usize)
        ensures
            frame_size == self@.frame_size,
    {
        self.frame_size
    }

    /// The side of a cell's square.
    pub fn cell_size(&self) -> (cell_size: u64)
        ensures
            cell_size == self@.world.cell_size,
    {
        self.world.cell_size()
    }

    /// Whether the simulation stands still.
    pub fn paused(&self) -> (paused: bool)
        ensures
            paused == self@.paused,
    {
        self.paused
    }

    /// The pace asked for with the arrow keys.
    pub fn speed(&self) -> (speed: isize)
        ensures
            speed == self@.speed,
    {
        self.speed
    }

    /// The colour of a fresh cursor.
    pub fn paint(&self) -> (paint: Color)
        ensures
            paint == self@.paint,
    {
        self.paint
    }

    /// The cursor, where there is one.
    pub fn cursor(&self) -> (cursor: Option<Cell>)
        ensures
            cursor == self@.cursor,
    {
        self.cursor
    }

    /// Tells whether the cursor stands on a cell of the world.
    fn cursor_inside(&self) -> (inside: bool)
        requires
            self.wf(),
        ensures
            inside == self@.cursor_inside(),
    {
        match self.cursor {
            Some(cursor) => cursor.at.0 < self.world.rows() && cursor.at.1 < self.world.cols(),
            None => false,
        }
    }

    /// Tells whether the world can take the radius `frame_size`.
    fn frame_fits(&self, frame_size: usize) -> (fits: bool)
        ensures
            fits == self@.frame_fits(frame_size as nat),
    {
        frame_size <= self.world.rows() && frame_size <= self.world.cols()
    }

    /// Tells whether the controller can handle `event` in its state.
    pub fn accepts(&self, event: Event) -> (accepted: bool)
        requires
            self.wf(),
        ensures
            accepted == self@.accepts(event),
    {
        match event {
            Event::Resize { rows, cols, cell_size } => World::fits(rows, cols, cell_size)
                && self.frame_size <= rows && self.frame_size <= cols,
            Event::MouseCursor { x, y } => self.world.cell_size() > 0 && (
            self.cursor_action.is_none() || self.cursor_inside()),
            Event::MouseScroll => true,
            Event::Button { state, button } => match button {
                Button::MouseLeft => !(state == ButtonState::Press && self.cursor.is_some())
                    || self.cursor_inside(),
                Button::MouseRight => state != ButtonState::Press || self.cursor_inside(),
                Button::Right => self.speed < isize::MAX,
                Button::Left => self.speed > isize::MIN,
                Button::Up => self.frame_size < self.world.rows() && self.frame_size
                    < self.world.cols(),
                Button::Down => self.frame_fits(
                    if self.frame_size > 2 {
                        self.frame_size - 1
                    } else {
                        1
                    },
                ),
                Button::C => self.frame_fits(self.frame_size),
                Button::Space => true,
                Button::Other => true,
            },
        }
    }

    /// Moves the cursor to the cell under `(x, y)`, if there is one.
    fn set_cursor(&mut self, x: u64, y: u64)
        requires
            old(self).wf(),
            old(self)@.world.cell_size > 0,
        ensures
            final(self).wf(),
            final(self)@ == (ControllerView {
                cursor: old(self)@.moved(old(self)@.world, x, y),
                ..old(self)@
            }),
    {
        let cell_size = self.world.cell_size();
        let col = x / cell_size;
        let row = y / cell_size;
        if row < self.world.rows() as u64 && col < self.world.cols() as u64 {
            let cell = self.world.cell_at(row as usize, col as usize);
            let color = match self.cursor {
                Some(cursor) => cursor.color,
                None => self.paint,
            };
            self.cursor = Some(Cell { color, top_left: cell.top_left, at: cell.at });
        }
    }

    /// Gives the cursor the next colour of the palette.
    fn flow_cursor_color(&mut self)
        requires
            old(self).wf(),
        ensures
            final(self).wf(),
            final(self)@ == old(self)@.scrolled(),
    {
        match self.cursor {
            Some(cursor) => {
                if self.next_color < self.cursor_colors.len() {
                    let color = self.cursor_colors[self.next_color];
                    self.cursor = Some(Cell { color, top_left: cursor.top_left, at: cursor.at });
                    self.next_color = self.next_color + 1;
                } else {
                    self.next_color = 0;
                }
            },
            None => {},
        }
    }

    /// Takes one input and moves to the state that `handle` gives. The
    /// input must be one that the controller accepts in its state.
    pub fn handle_event(&mut self, event: Event)
        requires
            old(self).wf(),
            old(self)@.accepts(event),
        ensures
            final(self).wf(),
            final(self)@ == old(self)@.handle(event),
    {
        match event {
            Event::Resize { rows, cols, cell_size } => {
                self.world.resize(rows, cols, cell_size);
                let _ = self.world.mirror_edge(self.frame_size);
            },
            Event::MouseCursor { x, y } => {
                match (self.cursor_action, self.cursor) {
                    (Some(CursorAction::Paint), Some(cursor)) => {
                        self.world.write(cursor);
                    },
                    (Some(CursorAction::Clear), Some(cursor)) => {
                        self.world.write(
                            Cell { color: Color::dead(), top_left: cursor.top_left, at: cursor.at },
                        );
                    },
                    _ => {},
                }
                self.set_cursor(x, y);
            },
            Event::MouseScroll => {
                self.flow_cursor_color();
            },
            Event::Button { state, button } => match button {
                Button::MouseLeft => {
                    if state == ButtonState::Press {
                        self.cursor_action = Some(CursorAction::Paint);
                        if let Some(cursor) = self.cursor {
                            self.world.write(cursor);
                        }
                    } else {
                        self.cursor_action = None;
                    }
                },
                Button::MouseRight => {
                    if state == ButtonState::Press {
                        self.cursor_action = Some(CursorAction::Clear);
                        if let Some(cursor) = self.cursor {
                            self.world.write(
                                Cell {
                                    color: Color::dead(),
                                    top_left: cursor.top_left,
                                    at: cursor.at,
                                },
                            );
                        }
                    } else {
                        self.cursor_action = None;
                    }
                },
                Button::Right => {
                    self.speed = self.speed + 1;
                },
                Button::Left => {
                    self.speed = self.speed - 1;
                },
                Button::Up => {
                    let rows = self.world.rows();
                    assert(self.frame_size < rows);
                    self.frame_size = self.frame_size + 1;
                    let _ = self.world.mirror_edge(self.frame_size);
                },
                Button::Down => {
                    if self.frame_size > 2 {
                        self.frame_size = self.frame_size - 1;
                    } else {
                        self.frame_size = 1;
                    }
                    let _ = self.world.mirror_edge(self.frame_size);
                },
                Button::Space => {
                    self.paused = state == ButtonState::Release;
                },
                Button::C => {
                    self.world.reset();
                    let _ = self.world.mirror_edge(self.frame_size);
                },
                Button::Other => {},
            },
        }
    }

    /// What there is to draw: the active cells in row-major order, and the
    /// cursor.
    pub fn render(&self) -> (scene: (Vec<Cell>, Option<Cell>))
        requires
            self.wf(),
        ensures
            scene.0@ == self@.world.live(),
            scene.1 == self@.cursor,
    {
        (self.world.get_cells(), self.cursor)
    }

    /// Advances the world by one generation under `rule`, whether the
    /// controller is paused or not.
    pub fn update<F: Fn(Vec<Cell>, Cell) -> Option<Cell>>(&mut self, rule: F)
        requires
            old(self).wf(),
            old(self)@.world.admits(rule),
        ensures
            final(self).wf(),
            exists|decisions: Seq<Option<Cell>>| #[trigger]
                old(self)@.world.generation(rule, decisions) && final(self)@ == (ControllerView {
                    world: old(self)@.world.commit(write_set(decisions)),
                    ..old(self)@
                }),
    {
        self.world.next(rule);
    }
}

} // verus!
