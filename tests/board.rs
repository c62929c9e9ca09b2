use game_of_life::{
    decide, Board, BoardConfig, Cell, CellState, Direction, Neighbors, Transition, Transitions,
};

fn matrix(width: usize, height: usize, alive: &[(usize, usize)]) -> Vec<Vec<u8>> {
    let mut m = vec![vec![0u8; width]; height];
    for &(x, y) in alive {
        m[y][x] = 1;
    }
    m
}

fn board_with(min: i32, max: i32, alive: &[(usize, usize)]) -> Board {
    let side = (max + 1).max(0) as usize;
    let config = BoardConfig { min_x: min, max_x: max, min_y: min, max_y: max, board: matrix(side, side, alive) };
    Board::new(&config)
}

fn alive_set(board: &Board) -> Vec<(i32, i32)> {
    let mut out = Vec::new();
    for i in 0..board.len() {
        let c = board.cell(i);
        if c.state == CellState::Alive {
            out.push((c.x, c.y));
        }
    }
    out.sort();
    out
}

const ALL: [Direction; 8] = [
    Direction::N,
    Direction::NE,
    Direction::E,
    Direction::SE,
    Direction::S,
    Direction::SW,
    Direction::W,
    Direction::NW,
];

#[test]
fn board_has_one_cell_per_point() {
    let b = board_with(-2, 2, &[]);
    assert_eq!(b.len(), 25);
    let config = BoardConfig { min_x: 0, max_x: 3, min_y: 5, max_y: 6, board: Vec::new() };
    let b = Board::new(&config);
    assert_eq!(b.len(), 8);
    assert_eq!(b.cell(0).x, 0);
    assert_eq!(b.cell(0).y, 5);
    assert_eq!(b.cell(5).x, 1);
    assert_eq!(b.cell(5).y, 6);
    assert_eq!(b.id_at(3, 6), Some(7));
    assert_eq!(b.id_at(4, 6), None);
}

#[test]
fn empty_bounds_give_empty_board() {
    let config = BoardConfig { min_x: 3, max_x: 2, min_y: 0, max_y: 10, board: vec![vec![1, 1, 1, 1]] };
    let b = Board::new(&config);
    assert_eq!(b.len(), 0);
    assert_eq!(b.get_state(3, 0), None);
}

#[test]
fn matrix_sets_initial_states() {
    let config = BoardConfig {
        min_x: -1,
        max_x: 2,
        min_y: -1,
        max_y: 1,
        board: vec![vec![1, 0, 1, 1, 1], vec![0, 2, 1]],
    };
    let b = Board::new(&config);
    assert_eq!(b.get_state(0, 0), Some(CellState::Alive));
    assert_eq!(b.get_state(1, 0), Some(CellState::Dead));
    assert_eq!(b.get_state(2, 0), Some(CellState::Alive));
    assert_eq!(b.get_state(1, 1), Some(CellState::Dead));
    assert_eq!(b.get_state(2, 1), Some(CellState::Alive));
    assert_eq!(b.get_state(-1, -1), Some(CellState::Dead));
    assert_eq!(b.get_state(3, 0), None);
    assert_eq!(alive_set(&b), vec![(0, 0), (2, 0), (2, 1)]);
    for i in 0..b.len() {
        let c = b.cell(i);
        let sprite = if c.state == CellState::Alive { 0 } else { 1 };
        assert_eq!(c.sprite_number, sprite);
    }
}

#[test]
fn default_config_is_forty_one_square() {
    let config = BoardConfig::default();
    assert_eq!((config.min_x, config.max_x, config.min_y, config.max_y), (-20, 20, -20, 20));
    assert!(config.board.is_empty());
    let b = Board::new(&config);
    assert_eq!(b.len(), 41 * 41);
    assert!(alive_set(&b).is_empty());
}

#[test]
fn neighbor_links_are_symmetric() {
    let b = board_with(0, 4, &[]);
    for i in 0..b.len() {
        for d in ALL {
            if let Some(j) = b.neighbors(i).get(d) {
                assert_eq!(b.neighbors(j).get(d.opposite()), Some(i));
            }
        }
    }
}

#[test]
fn links_at_edges_are_absent() {
    let b = board_with(0, 2, &[]);
    let corner = b.id_at(0, 0).unwrap();
    let n = b.neighbors(corner);
    assert_eq!(n.n, None);
    assert_eq!(n.ne, None);
    assert_eq!(n.nw, None);
    assert_eq!(n.w, None);
    assert_eq!(n.sw, None);
    assert_eq!(n.e, b.id_at(1, 0));
    assert_eq!(n.se, b.id_at(1, 1));
    assert_eq!(n.s, b.id_at(0, 1));
    let far = b.id_at(2, 2).unwrap();
    let n = b.neighbors(far);
    assert_eq!((n.s, n.se, n.e, n.ne, n.sw), (None, None, None, None, None));
    assert_eq!(n.n, b.id_at(2, 1));
    assert_eq!(n.nw, b.id_at(1, 1));
    assert_eq!(n.w, b.id_at(1, 2));
    let bottom_left = b.id_at(0, 2).unwrap();
    let n = b.neighbors(bottom_left);
    assert_eq!((n.sw, n.s, n.se, n.w, n.nw), (None, None, None, None, None));
    assert_eq!(n.ne, b.id_at(1, 1));
}

#[test]
fn links_at_the_largest_coordinates() {
    let config = BoardConfig { min_x: i32::MAX - 1, max_x: i32::MAX, min_y: i32::MIN, max_y: i32::MIN + 1, board: Vec::new() };
    let b = Board::new(&config);
    assert_eq!(b.len(), 4);
    let i = b.id_at(i32::MAX, i32::MIN).unwrap();
    let n = b.neighbors(i);
    assert_eq!((n.n, n.ne, n.e, n.se, n.nw), (None, None, None, None, None));
    assert_eq!(n.w, b.id_at(i32::MAX - 1, i32::MIN));
    assert_eq!(n.s, b.id_at(i32::MAX, i32::MIN + 1));
    assert_eq!(n.sw, b.id_at(i32::MAX - 1, i32::MIN + 1));
}

#[test]
fn counting_skips_missing_cells() {
    let cells = vec![
        Cell { x: 0, y: 0, state: CellState::Alive, sprite_number: 0 },
        Cell { x: 1, y: 0, state: CellState::Dead, sprite_number: 1 },
        Cell { x: 2, y: 0, state: CellState::Alive, sprite_number: 0 },
    ];
    let n = Neighbors { n: Some(0), ne: Some(1), e: Some(2), se: Some(7), s: None, sw: Some(2), w: None, nw: None };
    assert_eq!(n.get_num_alive(&cells), 3);
    let none = Neighbors { n: None, ne: None, e: None, se: None, s: None, sw: None, w: None, nw: Some(99) };
    assert_eq!(none.get_num_alive(&cells), 0);
}

#[test]
fn decide_follows_the_rule() {
    for n in 0..=8usize {
        let dead = if n == 3 { Transition::Revive } else { Transition::Keep };
        assert_eq!(decide(CellState::Dead, n), dead);
        let alive = if n < 2 || n > 3 { Transition::Kill } else { Transition::Keep };
        assert_eq!(decide(CellState::Alive, n), alive);
    }
}

#[test]
fn three_by_three_block_one_step() {
    let block: Vec<(usize, usize)> = (1..=3).flat_map(|y| (1..=3).map(move |x| (x, y))).collect();
    let mut b = board_with(0, 4, &block);
    assert_eq!(alive_set(&b).len(), 9);
    b.step();
    // Each corner has three alive neighbors and stays; the edge midpoints
    // (five) and the center (eight) die; the four cells facing the edge
    // midpoints have three and are born.
    let mut expected = vec![(1, 1), (1, 3), (3, 1), (3, 3), (2, 0), (0, 2), (4, 2), (2, 4)];
    expected.sort();
    assert_eq!(alive_set(&b), expected);
    assert_eq!(b.get_state(2, 2), Some(CellState::Dead));
    assert_eq!(b.get_state(2, 1), Some(CellState::Dead));
    assert_eq!(b.get_state(1, 2), Some(CellState::Dead));
    assert_eq!(b.get_state(3, 2), Some(CellState::Dead));
    assert_eq!(b.get_state(2, 3), Some(CellState::Dead));
}

#[test]
fn glider_moves_one_cell_diagonally_in_four_steps() {
    let glider = [(1, 0), (2, 1), (0, 2), (1, 2), (2, 2)];
    let mut b = board_with(0, 9, &glider);
    for _ in 0..4 {
        b.step();
    }
    let mut expected: Vec<(i32, i32)> = glider.iter().map(|&(x, y)| (x as i32 + 1, y as i32 + 1)).collect();
    expected.sort();
    assert_eq!(alive_set(&b), expected);
}

#[test]
fn block_is_still() {
    let mut b = board_with(0, 3, &[(1, 1), (2, 1), (1, 2), (2, 2)]);
    let before = alive_set(&b);
    for _ in 0..10 {
        b.step();
        assert_eq!(alive_set(&b), before);
    }
    let mut corner = board_with(0, 4, &[(0, 0), (1, 0), (0, 1), (1, 1)]);
    for _ in 0..5 {
        corner.step();
    }
    assert_eq!(alive_set(&corner), vec![(0, 0), (0, 1), (1, 0), (1, 1)]);
}

#[test]
fn blinker_oscillates() {
    let mut b = board_with(0, 4, &[(1, 2), (2, 2), (3, 2)]);
    b.step();
    assert_eq!(alive_set(&b), vec![(2, 1), (2, 2), (2, 3)]);
    b.step();
    assert_eq!(alive_set(&b), vec![(1, 2), (2, 2), (3, 2)]);
}

#[test]
fn edges_do_not_wrap() {
    // A blinker against the left edge: with wrap-around the far column
    // would count as a neighbor.
    let mut b = board_with(0, 4, &[(0, 1), (0, 2), (0, 3)]);
    b.step();
    assert_eq!(alive_set(&b), vec![(0, 2), (1, 2)]);
}

#[test]
fn evaluate_then_commit() {
    let b0 = board_with(0, 4, &[(1, 2), (2, 2), (3, 2)]);
    let t = b0.evaluate();
    let mut kill = t.kill.clone();
    kill.sort();
    let mut revive = t.revive.clone();
    revive.sort();
    assert_eq!(kill, vec![b0.id_at(1, 2).unwrap(), b0.id_at(3, 2).unwrap()]);
    assert_eq!(revive, vec![b0.id_at(2, 1).unwrap(), b0.id_at(2, 3).unwrap()]);
    let mut b = b0;
    b.commit(&t);
    assert_eq!(alive_set(&b), vec![(2, 1), (2, 2), (2, 3)]);
    let i = b.id_at(1, 2).unwrap();
    assert_eq!(b.cell(i).sprite_number, 1);
    let j = b.id_at(2, 1).unwrap();
    assert_eq!(b.cell(j).sprite_number, 0);
}

#[test]
fn commit_skips_unknown_ids() {
    let mut b = board_with(0, 1, &[(0, 0)]);
    let t = Transitions { kill: vec![100, 0], revive: vec![3, 55] };
    b.commit(&t);
    assert_eq!(alive_set(&b), vec![(1, 1)]);
    assert_eq!(b.len(), 4);
}
