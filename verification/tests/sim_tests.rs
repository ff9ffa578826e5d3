use game_of_life::Simulation;
use game_of_life::sim::cell_below_position;

fn alive_cells(s: &Simulation) -> Vec<(usize, usize)> {
    let (w, h) = s.dimensions();
    let mut out = Vec::new();
    for y in 0..h {
        for x in 0..w {
            if s.is_alive(x, y) {
                out.push((x, y));
            }
        }
    }
    out
}

fn toggle_all(s: &mut Simulation, cells: &[(usize, usize)]) {
    for &(x, y) in cells {
        s.toggle_cell(x, y);
    }
}

#[test]
fn new_simulation_is_dead_and_running() {
    let s = Simulation::new(40, 40);
    assert_eq!(s.dimensions(), (40, 40));
    assert!(!s.is_paused());
    assert!(alive_cells(&s).is_empty());
}

#[test]
fn toggle_cell_flips_and_flips_back() {
    let mut s = Simulation::new(3, 3);
    s.toggle_cell(1, 2);
    assert!(s.is_alive(1, 2));
    assert_eq!(alive_cells(&s), vec![(1, 2)]);
    s.toggle_cell(1, 2);
    assert!(!s.is_alive(1, 2));
    assert!(alive_cells(&s).is_empty());
}

#[test]
fn pause_controls_gate_flag_only() {
    let mut s = Simulation::new(3, 3);
    s.toggle_cell(0, 0);
    s.set_paused(true);
    assert!(s.is_paused());
    s.pause_toggle();
    assert!(!s.is_paused());
    s.pause_toggle();
    assert!(s.is_paused());
    // The grid was never touched by the pause controls.
    assert_eq!(alive_cells(&s), vec![(0, 0)]);
}

#[test]
fn step_while_paused_leaves_current_unchanged() {
    let mut s = Simulation::new(3, 3);
    toggle_all(&mut s, &[(1, 0), (1, 1), (1, 2)]);
    s.set_paused(true);
    let before = alive_cells(&s);
    s.step();
    s.step();
    assert_eq!(alive_cells(&s), before);
    assert!(s.is_paused());
}

#[test]
fn blinker_oscillates_with_period_two() {
    let mut s = Simulation::new(3, 3);
    toggle_all(&mut s, &[(1, 0), (1, 1), (1, 2)]);
    s.step();
    assert_eq!(alive_cells(&s), vec![(0, 1), (1, 1), (2, 1)]);
    s.step();
    assert_eq!(alive_cells(&s), vec![(1, 0), (1, 1), (1, 2)]);
}

#[test]
fn block_is_a_still_life() {
    let mut s = Simulation::new(4, 4);
    toggle_all(&mut s, &[(1, 1), (2, 1), (1, 2), (2, 2)]);
    for _ in 0..6 {
        s.step();
        assert_eq!(alive_cells(&s), vec![(1, 1), (2, 1), (1, 2), (2, 2)]);
    }
}

#[test]
fn block_in_corner_is_a_still_life() {
    let mut s = Simulation::new(5, 5);
    toggle_all(&mut s, &[(0, 0), (1, 0), (0, 1), (1, 1)]);
    s.step();
    assert_eq!(alive_cells(&s), vec![(0, 0), (1, 0), (0, 1), (1, 1)]);
}

#[test]
fn glider_translates_by_one_one_after_four_steps() {
    let mut s = Simulation::new(8, 8);
    // Glider anchored at (1, 1): cells (2,1),(3,2),(1,3),(2,3),(3,3).
    toggle_all(&mut s, &[(2, 1), (3, 2), (1, 3), (2, 3), (3, 3)]);
    for _ in 0..4 {
        s.step();
    }
    // Same glider anchored at (2, 2).
    assert_eq!(alive_cells(&s), vec![(3, 2), (4, 3), (2, 4), (3, 4), (4, 4)]);
}

#[test]
fn corner_cell_counts_no_phantom_neighbors() {
    let mut s = Simulation::new(3, 3);
    s.toggle_cell(0, 0);
    // A lone corner cell has no live neighbor at all.
    assert_eq!(s.get_neighbors_count(0, 0), 0);
    // With the three in-bounds neighbors alive, the count is exactly 3.
    toggle_all(&mut s, &[(1, 0), (0, 1), (1, 1)]);
    assert_eq!(s.get_neighbors_count(0, 0), 3);
}

#[test]
fn lone_corner_cell_dies() {
    let mut s = Simulation::new(3, 3);
    s.toggle_cell(0, 0);
    s.step();
    assert!(!s.is_alive(0, 0));
    assert!(alive_cells(&s).is_empty());
}

#[test]
fn lone_cell_on_one_by_one_grid_dies() {
    let mut s = Simulation::new(1, 1);
    s.toggle_cell(0, 0);
    assert_eq!(s.get_neighbors_count(0, 0), 0);
    s.step();
    assert!(!s.is_alive(0, 0));
}

#[test]
fn neighbor_count_sees_all_eight() {
    let mut s = Simulation::new(3, 3);
    for y in 0..3 {
        for x in 0..3 {
            if !(x == 1 && y == 1) {
                s.toggle_cell(x, y);
            }
        }
    }
    assert_eq!(s.get_neighbors_count(1, 1), 8);
}

#[test]
fn toggle_goes_through_the_rule_engine() {
    let mut s = Simulation::new(4, 4);
    // An L-tromino left by toggles...
    toggle_all(&mut s, &[(1, 1), (1, 2), (2, 2)]);
    s.step();
    // ...is completed into a block by the birth rule, not copied verbatim.
    assert_eq!(alive_cells(&s), vec![(1, 1), (2, 1), (1, 2), (2, 2)]);

    // Toggling a block's cell before a step changes the outcome as the rule
    // dictates: the remaining tromino regrows the block.
    s.toggle_cell(2, 1);
    s.step();
    assert_eq!(alive_cells(&s), vec![(1, 1), (2, 1), (1, 2), (2, 2)]);
}

#[test]
fn cell_below_position_divides_and_floors() {
    assert_eq!(cell_below_position(25, 37, 10, 10), (2, 3));
    assert_eq!(cell_below_position(30, 10, 10, 10), (3, 1));
    assert_eq!(cell_below_position(0, 9, 10, 10), (0, 0));
    assert_eq!(cell_below_position(7, 4, 1, 1), (7, 4));
}
