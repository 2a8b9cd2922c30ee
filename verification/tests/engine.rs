use cellular_automaton::cell::{Cell, Color};
use cellular_automaton::world::World;
use std::cell::RefCell;

fn white() -> Color {
    Color::new(1, 1, 1, 1)
}

fn paint(world: &mut World, row: usize, col: usize, color: Color) {
    let cell = world.find_cell_at(row, col).unwrap();
    world.write(Cell { color, ..cell });
}

fn places(cells: &[Cell]) -> Vec<(usize, usize)> {
    cells.iter().map(|cell| cell.at).collect()
}

fn die_when_alone(neighbors: Vec<Cell>, target: Cell) -> Option<Cell> {
    if neighbors.is_empty() {
        Some(Cell { color: Color::dead(), ..target })
    } else {
        None
    }
}

#[test]
fn lonely_centre_dies() {
    let mut world = World::new(3, 3, 1);
    assert_eq!(world.edge_width(), 1);
    paint(&mut world, 1, 1, white());
    let around = world.get_neighbors((1, 1));
    assert_eq!(around.len(), 8);
    for at in around {
        assert!(world.find_cell_at(at.0, at.1).unwrap().is_dead());
    }
    assert_eq!(world.get_surroundings((1, 1)), Vec::<Cell>::new());
    let writes = world.evaluate(die_when_alone);
    assert_eq!(writes, vec![Cell { color: Color::dead(), top_left: (1, 1), at: (1, 1) }]);
    assert_eq!(places(&world.get_cells()), vec![(1, 1)]);
    world.commit(writes);
    assert_eq!(world.get_cells(), Vec::<Cell>::new());
}

#[test]
fn lonely_centre_dies_in_one_step() {
    let mut world = World::new(3, 3, 1);
    paint(&mut world, 1, 1, white());
    world.next(die_when_alone);
    assert_eq!(world.get_cells(), Vec::<Cell>::new());
    assert!(world.find_cell_at(1, 1).unwrap().is_dead());
}

#[test]
fn silent_rule_changes_nothing() {
    let mut world = World::new(4, 4, 3);
    paint(&mut world, 0, 0, Color::new(1, 2, 3, 4));
    paint(&mut world, 2, 3, Color::new(5, 6, 7, 8));
    let before = world.get_cells();
    world.next(|_, _| None);
    assert_eq!(world.get_cells(), before);
    for row in 0..4usize {
        for col in 0..4usize {
            let live = (row, col) == (0, 0) || (row, col) == (2, 3);
            assert_eq!(world.find_cell_at(row, col).unwrap().is_dead(), !live);
        }
    }
    assert_eq!(world.evaluate(|_, _| None), Vec::<Cell>::new());
}

#[test]
fn silent_rule_on_empty_worlds() {
    let mut one = World::new(1, 1, 1);
    one.next(|_, _| None);
    assert_eq!(one.get_cells(), Vec::<Cell>::new());
    let mut none = World::new(0, 0, 0);
    none.next(|_, _| None);
    assert_eq!(none.get_cells(), Vec::<Cell>::new());
}

#[test]
fn rule_sees_only_the_previous_generation() {
    let mut world = World::new(4, 4, 1);
    paint(&mut world, 1, 1, white());
    paint(&mut world, 1, 2, white());
    let seen: RefCell<Vec<((usize, usize), usize)>> = RefCell::new(Vec::new());
    world.next(|neighbors: Vec<Cell>, target: Cell| {
        seen.borrow_mut().push((target.at, neighbors.len()));
        if neighbors.len() >= 1 {
            Some(Cell { color: Color::dead(), ..target })
        } else {
            None
        }
    });
    assert_eq!(seen.into_inner(), vec![((1, 1), 1), ((1, 2), 1)]);
    assert_eq!(world.get_cells(), Vec::<Cell>::new());
}

#[test]
fn rule_is_asked_once_for_each_live_cell() {
    let mut world = World::new(3, 5, 1);
    paint(&mut world, 2, 4, white());
    paint(&mut world, 0, 0, white());
    paint(&mut world, 1, 3, white());
    let asked: RefCell<Vec<(usize, usize)>> = RefCell::new(Vec::new());
    let writes = world.evaluate(|_, target: Cell| {
        asked.borrow_mut().push(target.at);
        None
    });
    assert_eq!(writes, Vec::<Cell>::new());
    assert_eq!(asked.into_inner(), vec![(0, 0), (1, 3), (2, 4)]);
}

#[test]
fn rule_may_wake_a_neighbour() {
    let mut world = World::new(3, 3, 2);
    paint(&mut world, 0, 0, Color::new(9, 9, 9, 9));
    world.next(|_, target: Cell| {
        Some(Cell { color: target.color, top_left: (0, 0), at: (target.at.0 + 1, target.at.1 + 1) })
    });
    assert_eq!(
        world.get_cells(),
        vec![
            Cell { color: Color::new(9, 9, 9, 9), top_left: (0, 0), at: (0, 0) },
            Cell { color: Color::new(9, 9, 9, 9), top_left: (2, 2), at: (1, 1) },
        ]
    );
}

#[test]
fn writes_come_in_the_order_of_the_cells_asked() {
    let mut world = World::new(2, 2, 1);
    paint(&mut world, 0, 1, Color::new(1, 0, 0, 0));
    paint(&mut world, 1, 0, Color::new(2, 0, 0, 0));
    let writes = world.evaluate(|_, target: Cell| Some(Cell { at: (1, 1), ..target }));
    assert_eq!(
        writes,
        vec![
            Cell { color: Color::new(1, 0, 0, 0), top_left: (1, 0), at: (1, 1) },
            Cell { color: Color::new(2, 0, 0, 0), top_left: (0, 1), at: (1, 1) },
        ]
    );
    world.commit(writes);
    assert_eq!(world.find_cell_at(1, 1).unwrap().color, Color::new(2, 0, 0, 0));
    assert_eq!(places(&world.get_cells()), vec![(0, 1), (1, 0), (1, 1)]);
}

#[test]
fn commit_of_nothing_changes_nothing() {
    let mut world = World::new(2, 2, 1);
    paint(&mut world, 0, 1, white());
    world.commit(Vec::new());
    assert_eq!(places(&world.get_cells()), vec![(0, 1)]);
}

#[test]
fn commit_updates_liveness_with_each_write() {
    let mut world = World::new(2, 3, 1);
    paint(&mut world, 0, 0, white());
    world.commit(vec![
        Cell { color: white(), top_left: (0, 0), at: (1, 2) },
        Cell { color: Color::dead(), top_left: (0, 0), at: (0, 0) },
        Cell { color: Color::dead(), top_left: (0, 0), at: (1, 2) },
        Cell { color: Color::new(0, 0, 0, 1), top_left: (0, 0), at: (0, 2) },
    ]);
    assert_eq!(places(&world.get_cells()), vec![(0, 2)]);
}

#[test]
fn blinker_turns_under_a_life_rule() {
    let mut world = World::new(5, 5, 1);
    paint(&mut world, 2, 1, white());
    paint(&mut world, 2, 2, white());
    paint(&mut world, 2, 3, white());
    let dying = world.evaluate(|neighbors: Vec<Cell>, target: Cell| {
        if neighbors.len() < 2 || neighbors.len() > 3 {
            Some(Cell { color: Color::dead(), ..target })
        } else {
            None
        }
    });
    assert_eq!(places(&dying), vec![(2, 1), (2, 3)]);
    world.commit(dying);
    assert_eq!(places(&world.get_cells()), vec![(2, 2)]);
}
