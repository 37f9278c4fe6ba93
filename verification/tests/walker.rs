use perimeter_echo::walker::{compute_next_row_and_col, Walker, BORDER_CELLS};

#[test]
fn next_moves_one_step_clockwise() {
    assert_eq!(compute_next_row_and_col(0, 0), (0, 1));
    assert_eq!(compute_next_row_and_col(0, 3), (0, 4));
    assert_eq!(compute_next_row_and_col(0, 4), (1, 4));
    assert_eq!(compute_next_row_and_col(3, 4), (4, 4));
    assert_eq!(compute_next_row_and_col(4, 4), (4, 3));
    assert_eq!(compute_next_row_and_col(4, 1), (4, 0));
    assert_eq!(compute_next_row_and_col(4, 0), (3, 0));
    assert_eq!(compute_next_row_and_col(1, 0), (0, 0));
}

#[test]
fn walk_is_a_single_cycle_through_the_border() {
    let mut visited = Vec::new();
    let mut pos = (0usize, 0usize);
    for _ in 0..BORDER_CELLS {
        visited.push(pos);
        pos = compute_next_row_and_col(pos.0, pos.1);
    }
    // back at the start after exactly BORDER_CELLS steps
    assert_eq!(pos, (0, 0));
    // every visited cell is on the border
    for &(r, c) in &visited {
        assert!(r < 5 && c < 5);
        assert!(r == 0 || r == 4 || c == 0 || c == 4);
    }
    // all visited cells are distinct, so all 16 border cells are covered
    for i in 0..visited.len() {
        for j in 0..i {
            assert_ne!(visited[i], visited[j]);
        }
    }
    assert_eq!(visited.len(), 16);
}

#[test]
fn walker_frame_lights_exactly_the_current_cell() {
    let mut w = Walker::new();
    assert_eq!((w.row, w.col), (0, 0));
    for _ in 0..20 {
        w.step();
        assert_eq!(w.frame.len(), 25);
        let lit: Vec<usize> = (0..25).filter(|&k| w.frame[k] == 1).collect();
        assert_eq!(lit, vec![w.row * 5 + w.col]);
    }
}

#[test]
fn walker_returns_to_start_after_a_full_lap() {
    let mut w = Walker::new();
    for _ in 0..BORDER_CELLS {
        w.step();
    }
    assert_eq!((w.row, w.col), (0, 0));
    assert_eq!(w.frame[0], 1);
}
