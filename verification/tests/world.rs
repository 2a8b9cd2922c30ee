use cellular_automaton::cell::{Cell, Color};
use cellular_automaton::world::{World, WorldError};

fn white() -> Color {
    Color::new(1, 1, 1, 1)
}

fn paint(world: &mut World, row: usize, col: usize, color: Color) {
    let cell = world.find_cell_at(row, col).unwrap();
    world.write(Cell { color, ..cell });
}

fn places(cells: &[Cell]) -> Vec<(usize, usize)> {
    cells.iter().map(|cell| cell.at).collect()
}

#[test]
fn new_world_has_no_live_cells() {
    assert!(World::fits(3, 3, 10));
    let world = World::new(3, 3, 10);
    assert_eq!(world.get_cells(), Vec::<Cell>::new());
    assert_eq!(world.rows(), 3);
    assert_eq!(world.cols(), 3);
    assert_eq!(world.cell_size(), 10);
    assert_eq!(world.edge_width(), 1);
    let cell = world.find_cell_at(2, 1).unwrap();
    assert_eq!(cell.top_left, (10, 20));
    assert_eq!(cell.at, (2, 1));
    assert_eq!(cell.color, Color::new(0, 0, 0, 0));
}

#[test]
fn empty_world_has_radius_zero() {
    let world = World::new(0, 0, 0);
    assert_eq!(world.edge_width(), 0);
    assert_eq!(world.get_cells(), Vec::<Cell>::new());
    assert_eq!(world.find_cell_at(0, 0), None);
    let flat = World::new(0, 4, 2);
    assert_eq!(flat.edge_width(), 0);
    assert_eq!(flat.find_cell_at(0, 3), None);
}

#[test]
fn fits_tells_representable_dimensions() {
    let most = isize::MAX as usize / 288;
    assert!(World::fits(0, 0, 0));
    assert!(World::fits(100, 100, 15));
    assert!(World::fits(0, usize::MAX, 1));
    assert!(!World::fits(0, usize::MAX, 2));
    assert!(!World::fits(usize::MAX, 2, 1));
    assert!(World::fits(most, 1, 1));
    assert!(World::fits(1, most, 1));
    assert!(!World::fits(most + 1, 1, 1));
    assert!(!World::fits(most / 2 + 1, 2, 1));
    assert!(!World::fits(2, 2, u64::MAX));
    assert!(World::fits(1, 1, u64::MAX));
    assert!(World::fits(3, 2, u64::MAX / 3));
    assert!(!World::fits(3, 2, u64::MAX / 3 + 1));
}

#[test]
fn try_new_turns_down_what_does_not_fit() {
    assert_eq!(World::try_new(usize::MAX, 2, 1).err(), Some(WorldError::Unrepresentable));
    assert_eq!(World::try_new(2, 2, u64::MAX).err(), Some(WorldError::Unrepresentable));
    let world = World::try_new(2, 3, 4).ok().unwrap();
    assert_eq!((world.rows(), world.cols(), world.cell_size()), (2, 3, 4));
    assert_eq!(world.edge_width(), 1);
    assert_eq!(world.get_cells(), Vec::<Cell>::new());
    assert_eq!(world.find_cell_at(1, 2).unwrap().top_left, (8, 4));
}

#[test]
fn position_is_column_and_row_times_cell_size() {
    let world = World::new(4, 6, 15);
    for row in 0..4usize {
        for col in 0..6usize {
            let cell = world.find_cell_at(row, col).unwrap();
            assert_eq!(cell.top_left, (col as u64 * 15, row as u64 * 15));
            assert_eq!(cell.at, (row, col));
        }
    }
}

#[test]
fn find_cell_at_checks_both_bounds() {
    let world = World::new(2, 3, 1);
    assert!(world.find_cell_at(1, 2).is_some());
    assert_eq!(world.find_cell_at(2, 0), None);
    assert_eq!(world.find_cell_at(0, 3), None);
    assert_eq!(world.find_cell_at(2, 3), None);
    assert_eq!(world.find_cell_at(usize::MAX, usize::MAX), None);
}

#[test]
fn cell_at_reads_what_was_written() {
    let mut world = World::new(3, 4, 5);
    paint(&mut world, 2, 3, Color::new(10, 20, 30, 40));
    assert_eq!(
        world.cell_at(2, 3),
        Cell { color: Color::new(10, 20, 30, 40), top_left: (15, 10), at: (2, 3) }
    );
    assert_eq!(world.cell_at(3 - 1, 2).color, Color::dead());
    assert_eq!(world.cell_at(0, 0).color, Color::dead());
}

#[test]
fn write_keeps_the_derived_position() {
    let mut world = World::new(3, 3, 10);
    world.write(Cell { color: white(), top_left: (999, 777), at: (1, 2) });
    assert_eq!(
        world.find_cell_at(1, 2),
        Some(Cell { color: white(), top_left: (20, 10), at: (1, 2) })
    );
}

#[test]
fn live_cells_come_in_row_major_order() {
    let mut world = World::new(3, 4, 2);
    paint(&mut world, 2, 0, Color::new(5, 0, 0, 0));
    paint(&mut world, 0, 3, Color::new(0, 6, 0, 0));
    paint(&mut world, 1, 1, Color::new(0, 0, 7, 0));
    paint(&mut world, 0, 1, Color::new(0, 0, 0, 8));
    let cells = world.get_cells();
    assert_eq!(places(&cells), vec![(0, 1), (0, 3), (1, 1), (2, 0)]);
    assert_eq!(cells[0], Cell { color: Color::new(0, 0, 0, 8), top_left: (2, 0), at: (0, 1) });
    assert_eq!(cells[3], Cell { color: Color::new(5, 0, 0, 0), top_left: (0, 4), at: (2, 0) });
}

#[test]
fn liveness_follows_every_write() {
    let mut world = World::new(2, 2, 1);
    assert_eq!(places(&world.get_cells()), vec![]);
    paint(&mut world, 0, 0, white());
    assert_eq!(places(&world.get_cells()), vec![(0, 0)]);
    paint(&mut world, 1, 1, white());
    assert_eq!(places(&world.get_cells()), vec![(0, 0), (1, 1)]);
    paint(&mut world, 0, 0, Color::new(0, 0, 0, 3));
    assert_eq!(places(&world.get_cells()), vec![(0, 0), (1, 1)]);
    paint(&mut world, 0, 0, Color::dead());
    assert_eq!(places(&world.get_cells()), vec![(1, 1)]);
    paint(&mut world, 0, 0, Color::dead());
    assert_eq!(places(&world.get_cells()), vec![(1, 1)]);
    paint(&mut world, 1, 1, Color::dead());
    assert_eq!(places(&world.get_cells()), vec![]);
    paint(&mut world, 1, 0, white());
    assert_eq!(places(&world.get_cells()), vec![(1, 0)]);
}

#[test]
fn neighbours_of_the_centre_are_the_other_eight() {
    let world = World::new(3, 3, 1);
    assert_eq!(
        world.get_neighbors((1, 1)),
        vec![(0, 0), (0, 1), (0, 2), (1, 0), (1, 2), (2, 0), (2, 1), (2, 2)]
    );
}

#[test]
fn corner_window_wraps_round_the_grid() {
    let world = World::new(4, 5, 1);
    let found = world.get_neighbors((0, 0));
    assert_eq!(found, vec![(3, 4), (3, 0), (3, 1), (0, 4), (0, 1), (1, 4), (1, 0), (1, 1)]);
    assert!(found.contains(&(3, 0)));
    assert!(found.contains(&(0, 4)));
    assert!(found.contains(&(3, 4)));
    assert!(!found.contains(&(0, 0)));
}

#[test]
fn far_corner_window_wraps_back() {
    let world = World::new(4, 5, 1);
    assert_eq!(
        world.get_neighbors((3, 4)),
        vec![(2, 3), (2, 4), (2, 0), (3, 3), (3, 0), (0, 3), (0, 4), (0, 0)]
    );
}

#[test]
fn corner_sees_its_live_wrapped_neighbours() {
    let mut world = World::new(4, 5, 3);
    paint(&mut world, 3, 0, Color::new(1, 0, 0, 0));
    paint(&mut world, 0, 4, Color::new(0, 1, 0, 0));
    paint(&mut world, 3, 4, Color::new(0, 0, 1, 0));
    paint(&mut world, 0, 0, white());
    paint(&mut world, 2, 2, white());
    let cells = world.get_surroundings((0, 0));
    assert_eq!(
        cells,
        vec![
            Cell { color: Color::new(0, 0, 1, 0), top_left: (12, 9), at: (3, 4) },
            Cell { color: Color::new(1, 0, 0, 0), top_left: (0, 9), at: (3, 0) },
            Cell { color: Color::new(0, 1, 0, 0), top_left: (12, 0), at: (0, 4) },
        ]
    );
}

#[test]
fn surroundings_skip_dead_cells() {
    let mut world = World::new(3, 3, 1);
    paint(&mut world, 1, 1, white());
    assert_eq!(world.get_surroundings((1, 1)), Vec::<Cell>::new());
    assert_eq!(places(&world.get_surroundings((0, 0))), vec![(1, 1)]);
    paint(&mut world, 0, 1, white());
    assert_eq!(places(&world.get_surroundings((1, 1))), vec![(0, 1)]);
}

#[test]
fn window_never_holds_the_cell_itself() {
    let mut one = World::new(1, 1, 1);
    paint(&mut one, 0, 0, white());
    assert_eq!(one.get_neighbors((0, 0)), Vec::<(usize, usize)>::new());
    assert_eq!(one.get_surroundings((0, 0)), Vec::<Cell>::new());
    let mut row = World::new(1, 3, 1);
    paint(&mut row, 0, 0, white());
    paint(&mut row, 0, 1, white());
    assert_eq!(row.get_neighbors((0, 0)), vec![(0, 2), (0, 1), (0, 2), (0, 1), (0, 2), (0, 1)]);
    assert_eq!(places(&row.get_surroundings((0, 0))), vec![(0, 1), (0, 1), (0, 1)]);
}

#[test]
fn wider_edge_gives_a_wider_window() {
    let mut world = World::new(5, 5, 1);
    assert_eq!(world.mirror_edge(2), Ok(()));
    assert_eq!(world.edge_width(), 2);
    let found = world.get_neighbors((0, 0));
    assert_eq!(found.len(), 24);
    assert_eq!(&found[..5], &[(3, 3), (3, 4), (3, 0), (3, 1), (3, 2)]);
    assert_eq!(found[23], (2, 2));
    assert!(!found.contains(&(0, 0)));
}

#[test]
fn edge_zero_leaves_no_neighbours() {
    let mut world = World::new(3, 3, 1);
    assert_eq!(world.mirror_edge(0), Ok(()));
    assert_eq!(world.get_neighbors((1, 1)), Vec::<(usize, usize)>::new());
}

#[test]
fn edge_as_wide_as_the_grid_is_accepted() {
    let mut world = World::new(2, 3, 1);
    assert_eq!(world.mirror_edge(2), Ok(()));
    assert_eq!(world.edge_width(), 2);
    let found = world.get_neighbors((1, 1));
    assert_eq!(found.len(), 25 - 3);
    assert_eq!(&found[..5], &[(1, 2), (1, 0), (1, 2), (1, 0), (0, 2)]);
}

#[test]
fn edge_wider_than_the_grid_is_turned_down() {
    let mut world = World::new(2, 3, 1);
    paint(&mut world, 1, 2, white());
    assert_eq!(world.mirror_edge(3), Err(WorldError::EdgeTooWide));
    assert_eq!(world.edge_width(), 1);
    assert_eq!(places(&world.get_cells()), vec![(1, 2)]);
    assert_eq!(world.mirror_edge(usize::MAX), Err(WorldError::EdgeTooWide));
    let mut empty = World::new(0, 0, 0);
    assert_eq!(empty.mirror_edge(1), Err(WorldError::EdgeTooWide));
    assert_eq!(empty.mirror_edge(0), Ok(()));
}

#[test]
fn mirror_edge_keeps_the_colours() {
    let mut world = World::new(4, 4, 1);
    paint(&mut world, 3, 3, white());
    assert_eq!(world.mirror_edge(2), Ok(()));
    assert_eq!(places(&world.get_cells()), vec![(3, 3)]);
    assert_eq!(places(&world.get_surroundings((1, 1))), vec![(3, 3), (3, 3), (3, 3), (3, 3)]);
    assert_eq!(places(&world.get_surroundings((2, 2))), vec![(3, 3)]);
    assert_eq!(world.mirror_edge(1), Ok(()));
    assert_eq!(world.get_surroundings((1, 1)), Vec::<Cell>::new());
}

#[test]
fn reset_clears_every_cell() {
    let mut world = World::new(3, 3, 4);
    world.mirror_edge(2).unwrap();
    paint(&mut world, 0, 0, white());
    paint(&mut world, 2, 1, white());
    world.reset();
    assert_eq!(world.get_cells(), Vec::<Cell>::new());
    assert_eq!((world.rows(), world.cols(), world.cell_size()), (3, 3, 4));
    assert_eq!(world.edge_width(), 2);
    assert_eq!(world.find_cell_at(2, 1).unwrap().top_left, (4, 8));
    paint(&mut world, 2, 1, white());
    assert_eq!(places(&world.get_cells()), vec![(2, 1)]);
}

#[test]
fn resize_gives_a_fresh_grid() {
    let mut world = World::new(3, 3, 4);
    paint(&mut world, 1, 1, white());
    world.resize(5, 2, 7);
    assert_eq!(world.get_cells(), Vec::<Cell>::new());
    assert_eq!((world.rows(), world.cols(), world.cell_size()), (5, 2, 7));
    for row in 0..5usize {
        for col in 0..2usize {
            let cell = world.find_cell_at(row, col).unwrap();
            assert_eq!(cell.top_left, (col as u64 * 7, row as u64 * 7));
            assert_eq!(cell.color, Color::dead());
        }
    }
    assert_eq!(world.find_cell_at(2, 2), None);
    assert_eq!(
        world.get_neighbors((0, 0)),
        vec![(4, 1), (4, 0), (4, 1), (0, 1), (0, 1), (1, 1), (1, 0), (1, 1)]
    );
}

#[test]
fn resize_keeps_or_clamps_the_edge_width() {
    let mut world = World::new(6, 6, 1);
    world.mirror_edge(3).unwrap();
    world.resize(4, 8, 1);
    assert_eq!(world.edge_width(), 3);
    world.resize(8, 2, 1);
    assert_eq!(world.edge_width(), 2);
    world.resize(1, 5, 1);
    assert_eq!(world.edge_width(), 1);
    world.resize(0, 5, 1);
    assert_eq!(world.edge_width(), 0);
    world.resize(5, 5, 1);
    assert_eq!(world.edge_width(), 0);
}

#[test]
fn resize_cells_moves_positions_and_keeps_colours() {
    let mut world = World::new(2, 3, 10);
    paint(&mut world, 1, 2, Color::new(4, 3, 2, 1));
    world.resize_cells(25);
    assert_eq!(world.cell_size(), 25);
    assert_eq!(
        world.get_cells(),
        vec![Cell { color: Color::new(4, 3, 2, 1), top_left: (50, 25), at: (1, 2) }]
    );
    assert_eq!(world.find_cell_at(1, 0).unwrap().top_left, (0, 25));
    assert_eq!(world.find_cell_at(0, 1).unwrap().top_left, (25, 0));
    world.resize_cells(0);
    assert_eq!(world.find_cell_at(1, 2).unwrap().top_left, (0, 0));
    assert_eq!(places(&world.get_cells()), vec![(1, 2)]);
}
