use bitlife::{Board, BOARD_SIZE, DEFAULT_SEED};

fn board_with(cells: &[(usize, usize)]) -> Board {
    let mut b = Board { data: [0; BOARD_SIZE] };
    for &(x, y) in cells {
        b.write(x, y, true);
    }
    b
}

fn step(b: &Board) -> Board {
    let mut next = Board { data: [0; BOARD_SIZE] };
    next.update(b);
    next
}

fn live_cells(b: &Board) -> Vec<(usize, usize)> {
    let mut v = Vec::new();
    for y in 0..BOARD_SIZE {
        for x in 0..BOARD_SIZE {
            if b.read(x, y) {
                v.push((x, y));
            }
        }
    }
    v
}

#[test]
fn new_is_deterministic() {
    assert_eq!(Board::new(7).data, Board::new(7).data);
    assert_ne!(Board::new(7).data, Board::new(8).data);
}

#[test]
fn new_follows_recurrence() {
    let b = Board::new(DEFAULT_SEED);
    let mut acc = DEFAULT_SEED;
    for y in 0..BOARD_SIZE {
        acc = acc.wrapping_mul(123).wrapping_add(561);
        assert_eq!(b.data[y], acc);
    }
    let b = Board::new(0);
    assert_eq!(b.data[0], 561);
    assert_eq!(b.data[1], 561 * 123 + 561);
}

#[test]
fn write_then_read() {
    let mut b = Board::new(3);
    for &(x, y) in &[(0usize, 0usize), (63, 0), (5, 17), (63, 63)] {
        let before = b.data;
        b.write(x, y, true);
        assert!(b.read(x, y));
        b.write(x, y, true);
        assert!(b.read(x, y));
        b.write(x, y, false);
        assert!(!b.read(x, y));
        b.write(x, y, false);
        assert!(!b.read(x, y));
        for yy in 0..BOARD_SIZE {
            if yy != y {
                assert_eq!(b.data[yy], before[yy]);
            }
        }
    }
}

#[test]
fn columns_wrap_around() {
    let b = board_with(&[(63, 10)]);
    assert_eq!(b.neighborcount(0, 10), 1);
    assert_eq!(b.neighborcount(0, 9), 1);
    assert_eq!(b.neighborcount(0, 11), 1);
    assert_eq!(b.full_sum_at(0, 10), 1);
    let b = board_with(&[(0, 10)]);
    assert_eq!(b.neighborcount(63, 10), 1);
    assert_eq!(b.full_sum_at(63, 11), 1);
}

#[test]
fn rows_wrap_around() {
    let b = board_with(&[(7, 63)]);
    assert_eq!(b.neighborcount(7, 0), 1);
    assert_eq!(b.full_sum_at(8, 0), 1);
    let b = board_with(&[(7, 0)]);
    assert_eq!(b.neighborcount(6, 63), 1);
    assert_eq!(b.full_sum_at(7, 63), 1);
}

#[test]
fn corner_block_is_stable_across_edges() {
    // a 2x2 block split over all four corners of the torus
    let b = board_with(&[(63, 63), (0, 63), (63, 0), (0, 0)]);
    assert_eq!(step(&b).data, b.data);
}

#[test]
fn block_is_stable() {
    let b = board_with(&[(0, 0), (1, 0), (0, 1), (1, 1)]);
    let next = step(&b);
    assert_eq!(next.data, b.data);
}

#[test]
fn blinker_has_period_two() {
    let b = board_with(&[(10, 9), (10, 10), (10, 11)]);
    let one = step(&b);
    assert_eq!(live_cells(&one), vec![(9, 10), (10, 10), (11, 10)]);
    let two = step(&one);
    assert_eq!(two.data, b.data);
}

#[test]
fn glider_moves_one_cell_diagonally_every_four_generations() {
    let shape = [(1usize, 0usize), (2, 1), (0, 2), (1, 2), (2, 2)];
    let mut b = board_with(&shape);
    for _ in 0..4 {
        b = step(&b);
    }
    let moved: Vec<(usize, usize)> = shape.iter().map(|&(x, y)| (x + 1, y + 1)).collect();
    assert_eq!(b.data, board_with(&moved).data);
    // after 4 * 64 generations it is back where it started
    for _ in 0..(4 * BOARD_SIZE - 4) {
        b = step(&b);
    }
    assert_eq!(b.data, board_with(&shape).data);
}

#[test]
fn empty_board_stays_empty() {
    let b = Board { data: [0; BOARD_SIZE] };
    assert_eq!(step(&b).data, [0; BOARD_SIZE]);
}

#[test]
fn full_board_dies() {
    let b = Board { data: [u64::MAX; BOARD_SIZE] };
    assert_eq!(b.neighborcount(0, 0), 8);
    assert_eq!(b.neighborcount(31, 40), 8);
    assert_eq!(b.full_sum_at(31, 40), 9);
    assert_eq!(step(&b).data, [0; BOARD_SIZE]);
}
