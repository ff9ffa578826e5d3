use game_of_life::BoolGrid2D;

fn alive_cells(g: &BoolGrid2D) -> Vec<(usize, usize)> {
    let mut out = Vec::new();
    for y in 0..g.height() {
        for x in 0..g.width() {
            if g.get(x, y) {
                out.push((x, y));
            }
        }
    }
    out
}

#[test]
fn new_grid_is_all_dead() {
    let g = BoolGrid2D::new(4, 3);
    assert_eq!(g.width(), 4);
    assert_eq!(g.height(), 3);
    assert!(alive_cells(&g).is_empty());
}

#[test]
fn get_index_is_row_major() {
    let g = BoolGrid2D::new(5, 4);
    assert_eq!(g.get_index(0, 0), 0);
    assert_eq!(g.get_index(3, 0), 3);
    assert_eq!(g.get_index(0, 1), 5);
    assert_eq!(g.get_index(2, 3), 17);
    assert_eq!(g.get_index(4, 3), 19);
}

#[test]
fn set_then_get_returns_value_and_leaves_others() {
    let mut g = BoolGrid2D::new(4, 4);
    g.set(2, 1, true);
    assert!(g.get(2, 1));
    assert_eq!(alive_cells(&g), vec![(2, 1)]);

    // Neighboring flat indices must not alias (1,2) != (2,1) etc.
    g.set(1, 2, true);
    assert!(g.get(1, 2));
    assert!(g.get(2, 1));
    assert!(!g.get(1, 1));
    assert!(!g.get(2, 2));

    g.set(2, 1, false);
    assert!(!g.get(2, 1));
    assert_eq!(alive_cells(&g), vec![(1, 2)]);
}

#[test]
fn set_overwrites_same_cell() {
    let mut g = BoolGrid2D::new(2, 2);
    g.set(0, 0, true);
    g.set(0, 0, true);
    assert!(g.get(0, 0));
    g.set(0, 0, false);
    assert!(!g.get(0, 0));
}

#[test]
fn one_by_one_grid() {
    let mut g = BoolGrid2D::new(1, 1);
    assert!(!g.get(0, 0));
    g.set(0, 0, true);
    assert!(g.get(0, 0));
}
