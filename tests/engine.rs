use bitlife::{Board, BOARD_SIZE};

fn board_with(cells: &[(usize, usize)]) -> Board {
    let mut b = Board { data: [0; BOARD_SIZE] };
    for &(x, y) in cells {
        b.write(x, y, true);
    }
    b
}

fn step(b: &Board) -> Board {
    let mut next = Board { data: [0; BOARD_SIZE] };
    next.update(b);
    next
}

fn step_reference(b: &Board) -> Board {
    let mut next = Board { data: [0; BOARD_SIZE] };
    next.update_reference(b);
    next
}

#[test]
fn half_add_sum_and_carry() {
    assert_eq!(Board::half_add(0b1100, 0b1010), (0b0110, 0b1000));
    assert_eq!(Board::half_add(u64::MAX, 1), (u64::MAX - 1, 1));
}

#[test]
fn full_add_parity_and_majority() {
    // columns hold a+b+c = 0,1,1,2,1,2,2,3 in bits 0..7
    let a = 0b1111_0000u64;
    let b = 0b1100_1100u64;
    let c = 0b1010_1010u64;
    assert_eq!(Board::full_add(a, b, c), (0b1001_0110, 0b1110_1000));
}

#[test]
fn partial_sum_counts_horizontal_window() {
    // a single live cell at column 0 is seen from columns 63, 0 and 1
    let (ones, twos) = Board::partial_sum(1);
    assert_eq!(ones, (1u64 << 63) | 0b11);
    assert_eq!(twos, 0);
    // three live cells in a row: the centre column counts 3, the next ones 2, the outer ones 1
    let (ones, twos) = Board::partial_sum(0b0111_0000);
    assert_eq!(ones, 0b1010_1000);
    assert_eq!(twos, 0b0111_0000);
}

#[test]
fn sum_of_partials_adds_three_counts() {
    // column 0: 3+3+3 = 9, column 1: 1+2+0 = 3, column 2: 2+2+0 = 4
    let p1 = (0b011, 0b101);
    let p2 = (0b001, 0b111);
    let p3 = (0b001, 0b001);
    assert_eq!(Board::sum_of_partials(p1, p2, p3), (0b011, 0b010, 0b100, 0b001));
}

#[test]
fn full_sum_counts_block() {
    // a fully live 3-row band: every column sees 9 live cells
    let (s1, s2, s4, s8) = Board::full_sum(u64::MAX, u64::MAX, u64::MAX);
    assert_eq!((s1, s2, s4, s8), (u64::MAX, 0, 0, u64::MAX));
    // a single live cell in the middle row at column 5
    let (s1, s2, s4, s8) = Board::full_sum(0, 1 << 5, 0);
    assert_eq!((s1, s2, s4, s8), (0b111 << 4, 0, 0, 0));
}

#[test]
fn rule_from_sum_planes() {
    // column 0: count 3, dead -> born; column 1: count 4, alive -> lives;
    // column 2: count 4, dead -> stays dead; column 3: count 9 -> dies
    let sum = (0b1001, 0b0001, 0b0110, 0b1000);
    let state = 0b1010;
    assert_eq!(Board::next_row_state_from_sum(sum, state), 0b0011);
}

#[test]
fn exhaustive_neighbourhoods_agree() {
    for &(cx, cy) in &[(0usize, 0usize), (10, 20), (63, 63)] {
        for m in 0..512u32 {
            let mut b = Board { data: [0; BOARD_SIZE] };
            for k in 0..9u32 {
                if m >> k & 1 == 1 {
                    let x = (cx + BOARD_SIZE + (k % 3) as usize - 1) % BOARD_SIZE;
                    let y = (cy + BOARD_SIZE + (k / 3) as usize - 1) % BOARD_SIZE;
                    b.write(x, y, true);
                }
            }
            let n = b.neighborcount(cx, cy);
            let centre = b.read(cx, cy);
            let expected = (m.count_ones() as i32) - if centre { 1 } else { 0 };
            assert_eq!(n, expected);
            assert_eq!(b.full_sum_at(cx, cy), n as usize + centre as usize);
            let next = step(&b);
            assert_eq!(next.data, step_reference(&b).data);
            assert_eq!(next.read(cx, cy), n == 3 || (centre && n == 2));
        }
    }
}

#[test]
fn seeded_boards_agree_with_reference() {
    for seed in [0u64, 1, 42, bitlife::DEFAULT_SEED, u64::MAX] {
        let mut b = Board::new(seed);
        for _ in 0..8 {
            let next = step(&b);
            assert_eq!(next.data, step_reference(&b).data);
            b = next;
        }
    }
}

#[test]
fn update_point_applies_rule_to_one_cell() {
    // (1,1) has three live neighbours and is born; nothing else changes
    let old = board_with(&[(0, 0), (1, 0), (2, 0)]);
    let mut b = old;
    b.update_point(&old, 1, 1);
    assert!(b.read(1, 1));
    assert!(b.read(0, 0) && b.read(1, 0) && b.read(2, 0));
    // an isolated live cell dies
    let old = board_with(&[(30, 30)]);
    let mut b = old;
    b.update_point(&old, 30, 30);
    assert_eq!(b.data, [0; BOARD_SIZE]);
}
