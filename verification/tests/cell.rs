use cellular_automaton::cell::{Cell, Color, WPoint};

#[test]
fn zero_colour_is_dead() {
    assert!(Color::dead().is_dead());
    assert!(Color::new(0, 0, 0, 0).is_dead());
    assert_eq!(Color::dead(), Color::new(0, 0, 0, 0));
}

#[test]
fn any_channel_makes_a_colour_live() {
    assert!(!Color::new(1, 0, 0, 0).is_dead());
    assert!(!Color::new(0, 1, 0, 0).is_dead());
    assert!(!Color::new(0, 0, 1, 0).is_dead());
    assert!(!Color::new(0, 0, 0, 1).is_dead());
    assert!(!Color::new(u32::MAX, u32::MAX, u32::MAX, u32::MAX).is_dead());
}

#[test]
fn cell_is_dead_with_its_colour() {
    let dead = Cell { color: Color::dead(), top_left: (4, 8), at: (2, 1) };
    let live = Cell { color: Color::new(0, 0, 7, 0), top_left: (4, 8), at: (2, 1) };
    assert!(dead.is_dead());
    assert!(!live.is_dead());
}

#[test]
fn from_zero_point() {
    let point = WPoint { color: Color::new(0, 0, 0, 0), x: 0, y: 0 };
    let cell = Cell::from((point, 0, 0));
    assert_eq!(cell, Cell { color: Color::new(0, 0, 0, 0), top_left: (0, 0), at: (0, 0) });
}

#[test]
fn from_one_point() {
    let point = WPoint { color: Color::new(1, 1, 1, 1), x: 1, y: 1 };
    let cell = Cell::from((point, 1, 1));
    assert_eq!(cell, Cell { color: Color::new(1, 1, 1, 1), top_left: (1, 1), at: (1, 1) });
}

#[test]
fn from_point_keeps_each_component_apart() {
    let point = WPoint { color: Color::new(1, 2, 3, 4), x: 5, y: 6 };
    let cell = Cell::from((point, 7, 8));
    assert_eq!(cell.color, Color { r: 1, g: 2, b: 3, a: 4 });
    assert_eq!(cell.top_left, (5, 6));
    assert_eq!(cell.at, (7, 8));
}

#[test]
fn into_zero_point() {
    let cell = Cell { color: Color::new(0, 0, 0, 0), top_left: (0, 0), at: (0, 0) };
    let point: WPoint = cell.into();
    assert_eq!(point, WPoint { color: Color::new(0, 0, 0, 0), x: 0, y: 0 });
}

#[test]
fn into_one_point() {
    let cell = Cell { color: Color::new(1, 1, 1, 1), top_left: (1, 1), at: (1, 1) };
    let point: WPoint = cell.into();
    assert_eq!(point, WPoint { color: Color::new(1, 1, 1, 1), x: 1, y: 1 });
}

#[test]
fn into_representation_carries_the_location() {
    let cell = Cell { color: Color::new(9, 8, 7, 6), top_left: (30, 45), at: (3, 2) };
    let (point, row, col): (WPoint, usize, usize) = cell.into();
    assert_eq!(point, WPoint { color: Color::new(9, 8, 7, 6), x: 30, y: 45 });
    assert_eq!((row, col), (3, 2));
    assert_eq!(Cell::from((point, row, col)), cell);
}
