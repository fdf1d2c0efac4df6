use lifegrid::cell::{calculate_position, Cell, Grid, Position};

fn is_corner(p: Position) -> bool {
    matches!(p, Position::LeftTop | Position::RightTop | Position::LeftBottom | Position::RightBottom)
}

fn filled(slots: [Option<usize>; 8]) -> usize {
    slots.iter().filter(|s| s.is_some()).count()
}

#[test]
fn classifier_decision_order_on_three_by_three() {
    let expected = [
        Position::LeftTop,
        Position::TopSide,
        Position::RightTop,
        Position::LeftSide,
        Position::Center,
        Position::RightSide,
        Position::LeftBottom,
        Position::BottomSide,
        Position::RightBottom,
    ];
    for (i, p) in expected.iter().enumerate() {
        assert_eq!(calculate_position(i, 3, 3), *p);
    }
}

#[test]
fn classifier_finds_four_corners() {
    for (w, h) in [(2usize, 2usize), (2, 5), (5, 2), (4, 7), (12, 12)] {
        let corners = (0..w * h).filter(|&i| is_corner(calculate_position(i, w, h))).count();
        assert_eq!(corners, 4);
    }
}

#[test]
fn classifier_on_a_wide_grid() {
    // 4 x 3: the middle row holds two interior cells
    assert_eq!(calculate_position(5, 4, 3), Position::Center);
    assert_eq!(calculate_position(6, 4, 3), Position::Center);
    assert_eq!(calculate_position(4, 4, 3), Position::LeftSide);
    assert_eq!(calculate_position(7, 4, 3), Position::RightSide);
    assert_eq!(calculate_position(9, 4, 3), Position::BottomSide);
    assert_eq!(calculate_position(1, 4, 3), Position::TopSide);
}

#[test]
fn new_grid_is_all_dead() {
    let grid = Grid::new(6, 4);
    assert_eq!(grid.len(), 24);
    assert_eq!(grid.width(), 6);
    assert_eq!(grid.height(), 4);
    for i in 0..grid.len() {
        assert!(!grid.is_alive(i));
    }
}

#[test]
fn adjacency_is_symmetric() {
    for (w, h) in [(2usize, 2usize), (3, 3), (5, 4), (2, 6)] {
        let grid = Grid::new(w, h);
        for a in 0..grid.len() {
            for b in grid.cell(a).neighbours().iter().flatten() {
                assert!(*b < grid.len());
                assert!(grid.cell(*b).neighbours().contains(&Some(a)));
            }
        }
    }
}

#[test]
fn neighbour_counts_match_class() {
    let grid = Grid::new(5, 4);
    for i in 0..grid.len() {
        let cell = grid.cell(i);
        let expected = match cell.position() {
            Position::Center => 8,
            p if is_corner(p) => 3,
            _ => 5,
        };
        assert_eq!(filled(cell.neighbours()), expected);
    }
}

#[test]
fn neighbours_never_repeat_or_self() {
    let grid = Grid::new(4, 4);
    for i in 0..grid.len() {
        let slots: Vec<usize> = grid.cell(i).neighbours().iter().flatten().copied().collect();
        assert!(!slots.contains(&i));
        for (x, a) in slots.iter().enumerate() {
            for b in slots.iter().skip(x + 1) {
                assert_ne!(a, b);
            }
        }
    }
}

#[test]
fn left_side_slots_point_in_each_direction() {
    let grid = Grid::new(3, 3);
    assert_eq!(
        grid.cell(3).neighbours(),
        [None, Some(0), Some(1), None, Some(4), None, Some(6), Some(7)]
    );
    assert_eq!(
        grid.cell(4).neighbours(),
        [Some(0), Some(1), Some(2), Some(3), Some(5), Some(6), Some(7), Some(8)]
    );
    assert_eq!(
        grid.cell(0).neighbours(),
        [None, None, None, None, Some(1), None, Some(3), Some(4)]
    );
    assert_eq!(
        grid.cell(8).neighbours(),
        [Some(4), Some(5), None, Some(7), None, None, None, None]
    );
}

#[test]
fn eight_live_neighbours_leave_center_dead() {
    let mut grid = Grid::new(3, 3);
    for i in 0..9 {
        if i != 4 {
            grid.change_state(i, true);
        }
    }
    assert!(grid.compute_next_generation().is_ok());
    assert!(!grid.is_alive(4));
    // corners see two live neighbours, sides four
    for i in [0, 2, 6, 8] {
        assert!(!grid.is_alive(i));
    }
    for i in [1, 3, 5, 7] {
        assert!(grid.is_alive(i));
    }
}

#[test]
fn three_live_neighbours_bring_a_cell_alive() {
    let mut grid = Grid::new(5, 5);
    for i in [11, 12, 13] {
        grid.change_state(i, true);
    }
    assert!(grid.compute_next_generation().is_ok());
    let alive: Vec<usize> = (0..grid.len()).filter(|&i| grid.is_alive(i)).collect();
    assert_eq!(alive, vec![7, 17]);
}

#[test]
fn lone_cell_dies_out() {
    let mut grid = Grid::new(4, 4);
    grid.change_state(5, true);
    assert_eq!(grid.compute_next_generation(), Err("Whole generation died"));
    for i in 0..grid.len() {
        assert!(!grid.is_alive(i));
    }
}

#[test]
fn empty_grid_reports_extinction() {
    let mut grid = Grid::new(2, 2);
    assert!(grid.compute_next_generation().is_err());
}

#[test]
fn full_two_by_two_survives() {
    let mut grid = Grid::new(2, 2);
    for i in 0..4 {
        grid.change_state(i, true);
    }
    assert_eq!(grid.compute_next_generation(), Ok(()));
    for i in 0..4 {
        assert!(grid.is_alive(i));
    }
}

#[test]
fn change_state_sets_one_cell() {
    let mut grid = Grid::new(3, 2);
    grid.change_state(4, true);
    for i in 0..6 {
        assert_eq!(grid.is_alive(i), i == 4);
    }
    grid.change_state(4, false);
    assert!(!grid.is_alive(4));
}

#[test]
fn from_states_copies_each_state() {
    let states = vec![true, false, false, true, true, false];
    let grid = Grid::from_states(2, 3, &states);
    for i in 0..6 {
        assert_eq!(grid.is_alive(i), states[i]);
    }
    assert_eq!(grid.cell(3).position(), Position::RightSide);
}

#[test]
fn randomized_grid_has_its_shape() {
    let grid = Grid::new_randomized(12, 12);
    assert_eq!(grid.len(), 144);
    assert_eq!(grid.width(), 12);
    assert_eq!(grid.height(), 12);
    assert_eq!(filled(grid.cell(13).neighbours()), 8);
}

#[test]
fn render_writes_rows_of_digits() {
    let mut grid = Grid::new(3, 2);
    grid.change_state(1, true);
    grid.change_state(5, true);
    assert_eq!(grid.render(), "\n0 1 0 \n0 0 1 ");
}

#[test]
fn cell_new_is_dead_and_changes_state() {
    let slots = [None, None, None, None, Some(1), None, Some(2), Some(3)];
    let mut cell = Cell::new(Position::LeftTop, slots);
    assert!(!cell.is_alive());
    assert_eq!(cell.position(), Position::LeftTop);
    assert_eq!(cell.neighbours(), slots);
    cell.change_state(true);
    assert!(cell.is_alive());
}

#[test]
fn position_labels_are_padded() {
    assert_eq!(Position::LeftTop.label(), "LeftTop    ");
    assert_eq!(Position::RightBottom.label(), "RightBottom");
    assert_eq!(Position::Center.label(), "Center     ");
    assert_eq!(Position::BottomSide.label().len(), 11);
}
