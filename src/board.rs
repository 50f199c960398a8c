use vstd::prelude::*;
use crate::adder::{block_rule, planes_value, window};
use crate::laws::lemma_block_count;
use crate::bits::{bit, bitval, col_after, col_before, lemma_bit_ops, BOARD_SIZE};

verus! {

/// A seed for `Board::new` that gives a well-mixed start.
pub const DEFAULT_SEED: u64 = 383289243938892398;

/// One step of the seeding recurrence `acc * 123 + 561`, wrapping modulo 2^64.
pub open spec fn lcg_step(acc: u64) -> u64 {
    ((acc as int * 123 + 561) % 0x1_0000_0000_0000_0000) as u64
}

/// The seeding recurrence applied `n` times to `seed`.
pub open spec fn lcg_iter(seed: u64, n: nat) -> u64
    decreases n,
{
    if n == 0 {
        seed
    } else {
        lcg_step(lcg_iter(seed, (n - 1) as nat))
    }
}

/// The life rule: a cell lives next generation iff it has exactly 3 live neighbours,
/// or it is alive and has exactly 2.
pub open spec fn life_rule(neighbors: nat, alive: bool) -> bool {
    neighbors == 3 || (alive && neighbors == 2)
}

/// A square toroidal grid of `BOARD_SIZE` x `BOARD_SIZE` cells.
/// Row `y` is the word `data[y]`; bit `x` of that word is the cell in column `x`.
#[derive(Copy, Clone, Debug)]
pub struct Board {
    pub data: [u64; BOARD_SIZE],
}

impl Board {
    /// The word of row `y`, taken modulo the board size.
    pub open spec fn row(self, y: int) -> u64 {
        self.data@[y % 64]
    }

    /// The cell at column `x`, row `y`; both wrap around the torus.
    pub open spec fn cell(self, x: int, y: int) -> bool {
        bit(self.row(y), (x % 64) as u64)
    }

    /// The cell at `(x, y)` as the number 0 or 1.
    pub open spec fn cellval(self, x: int, y: int) -> nat {
        if self.cell(x, y) {
            1
        } else {
            0
        }
    }

    /// The number of live cells among the eight neighbours of `(x, y)`.
    pub open spec fn neighbors(self, x: int, y: int) -> nat {
        self.cellval(x - 1, y - 1) + self.cellval(x, y - 1) + self.cellval(x + 1, y - 1)
            + self.cellval(x - 1, y) + self.cellval(x + 1, y)
            + self.cellval(x - 1, y + 1) + self.cellval(x, y + 1) + self.cellval(x + 1, y + 1)
    }

    /// The state of cell `(x, y)` in the next generation.
    pub open spec fn next_cell(self, x: int, y: int) -> bool {
        life_rule(self.neighbors(x, y), self.cell(x, y))
    }

    /// Every cell of `self` holds the state that `old_board` gives it in the next generation.
    pub open spec fn is_next_generation_of(self, old_board: Board) -> bool {
        forall|x: int, y: int|
            0 <= x < 64 && 0 <= y < 64 ==> #[trigger] self.cell(x, y) == old_board.next_cell(x, y)
    }

    /// Row `y` of `self` is the seeding recurrence applied `y + 1` times to `seed`.
    pub open spec fn is_seeded_by(self, seed: u64) -> bool {
        forall|y: int| 0 <= y < 64 ==> #[trigger] self.data@[y] == lcg_iter(seed, (y + 1) as nat)
    }

    /// `self` is `before` with cell `(x, y)` set to `val` and every other cell kept.
    pub open spec fn differs_only_at(self, before: Board, x: int, y: int, val: bool) -> bool {
        forall|i: int, j: int|
            0 <= i < 64 && 0 <= j < 64 ==> #[trigger] self.cell(i, j) == if i == x && j == y {
                val
            } else {
                before.cell(i, j)
            }
    }

    /// A board whose row `y` is the seeding recurrence applied `y + 1` times to `seed`.
    pub fn new(seed: u64) -> (b: Board)
        ensures
            b.is_seeded_by(seed),
    {
        let mut board = Board { data: [0u64; BOARD_SIZE] };
        let mut acc: u64 = seed;
        let mut y: usize = 0;
        while y < BOARD_SIZE
            invariant
                y <= 64,
                acc == lcg_iter(seed, y as nat),
                forall|k: int| 0 <= k < y ==> #[trigger] board.data@[k] == lcg_iter(seed, (k + 1) as nat),
            decreases 64 - y,
        {
            let next = acc.wrapping_mul(123).wrapping_add(561);
            proof {
                let m: int = 0x1_0000_0000_0000_0000;
                vstd::arithmetic::div_mod::lemma_add_mod_noop(acc as int * 123, 561, m);
                vstd::arithmetic::div_mod::lemma_small_mod(561, m as nat);
                assert(next == lcg_step(acc));
            }
            acc = next;
            board.data[y] = acc;
            y = y + 1;
        }
        board
    }

    /// The cell at column `x`, row `y`.
    pub fn read(&self, x: usize, y: usize) -> (r: bool)
        requires
            x < 64,
            y < 64,
        ensures
            r == self.cell(x as int, y as int),
    {
        (self.data[y] >> (x as u64)) & 1u64 == 1u64
    }

    /// Sets the cell at column `x`, row `y` to `val`, keeping every other cell.
    pub fn write(&mut self, x: usize, y: usize, val: bool)
        requires
            x < 64,
            y < 64,
        ensures
            final(self).differs_only_at(*old(self), x as int, y as int, val),
    {
        let w = self.data[y];
        let xs = x as u64;
        let nw = if val {
            w | (1u64 << xs)
        } else {
            w & !(1u64 << xs)
        };
        proof {
            assert forall|i: u64| i < 64 implies #[trigger] bit(nw, i) == if i == xs {
                val
            } else {
                bit(w, i)
            } by {
                assert(i < 64 && xs < 64 ==> bit(w | (1u64 << xs), i) == (i == xs || bit(w, i)))
                    by (bit_vector);
                assert(i < 64 && xs < 64 ==> bit(w & !(1u64 << xs), i) == (i != xs && bit(w, i)))
                    by (bit_vector);
            }
        }
        self.data[y] = nw;
        proof {
            assert forall|i: int, j: int| 0 <= i < 64 && 0 <= j < 64 implies #[trigger] self.cell(
                i,
                j,
            ) == if i == x && j == y {
                val
            } else {
                old(self).cell(i, j)
            } by {
                assert(i % 64 == i && j % 64 == j);
                assert(bit(nw, i as u64) == if i as u64 == xs { val } else { bit(w, i as u64) });
            }
        }
    }
    /// Row `y` of the next generation, computed for all columns at once by the adder
    /// network from rows `y - 1`, `y` and `y + 1` (wrapping).
    pub fn next_row_state(&self, y: usize) -> (r: u64)
        requires
            y < 64,
        ensures
            forall|x: u64| x < 64 ==> #[trigger] bit(r, x) == self.next_cell(x as int, y as int),
    {
        let above = self.data[(y + 1) % BOARD_SIZE];
        let here = self.data[y];
        let below = self.data[(y + BOARD_SIZE - 1) % BOARD_SIZE];
        let sum = Board::full_sum(above, here, below);
        let r = Board::next_row_state_from_sum(sum, here);
        assert forall|x: u64| x < 64 implies #[trigger] bit(r, x) == self.next_cell(
            x as int,
            y as int,
        ) by {
            lemma_block_count(*self, x as int, y as int);
            assert(self.row(y - 1) == below && self.row(y as int) == here && self.row(y + 1)
                == above);
            assert(planes_value(sum, x) == self.neighbors(x as int, y as int) + self.cellval(
                x as int,
                y as int,
            ));
            assert(bit(here, x) == self.cell(x as int, y as int));
        }
        r
    }

    /// Overwrites `self` with the generation that follows `old_board`.
    pub fn update(&mut self, old_board: &Board)
        ensures
            final(self).is_next_generation_of(*old_board),
    {
        let mut y: usize = 0;
        while y < BOARD_SIZE
            invariant
                y <= 64,
                forall|k: int, x: u64|
                    0 <= k < y && x < 64 ==> #[trigger] bit(self.data@[k], x) == old_board.next_cell(
                        x as int,
                        k,
                    ),
            decreases 64 - y,
        {
            let row = old_board.next_row_state(y);
            self.data[y] = row;
            y = y + 1;
        }
        assert forall|x: int, y: int| 0 <= x < 64 && 0 <= y < 64 implies #[trigger] self.cell(x, y)
            == old_board.next_cell(x, y) by {
            assert(x % 64 == x && y % 64 == y);
            assert(bit(self.data@[y], x as u64) == old_board.next_cell(x as u64 as int, y));
        }
    }

    /// The live count of the 3 x 3 block centred on `(x, y)`, the cell itself included,
    /// read off the adder network's count planes.
    pub fn full_sum_at(&self, x: usize, y: usize) -> (r: usize)
        requires
            x < 64,
            y < 64,
        ensures
            r == self.neighbors(x as int, y as int) + self.cellval(x as int, y as int),
    {
        let above = (y + 1) % BOARD_SIZE;
        let below = (y + BOARD_SIZE - 1) % BOARD_SIZE;
        let (s1, s2, s4, s8) = Board::full_sum(self.data[above], self.data[y], self.data[below]);
        let xs = x as u64;
        let b1 = (s1 >> xs) & 1u64;
        let b2 = (s2 >> xs) & 1u64;
        let b4 = (s4 >> xs) & 1u64;
        let b8 = (s8 >> xs) & 1u64;
        proof {
            lemma_bit_value(s1, xs);
            lemma_bit_value(s2, xs);
            lemma_bit_value(s4, xs);
            lemma_bit_value(s8, xs);
            lemma_block_count(*self, x as int, y as int);
            assert(self.row(y - 1) == self.data@[below as int]);
            assert(self.row(y + 1) == self.data@[above as int]);
            assert(planes_value((s1, s2, s4, s8), xs) == self.neighbors(x as int, y as int)
                + self.cellval(x as int, y as int));
        }
        b1 as usize + (b2 as usize) * 2 + (b4 as usize) * 4 + (b8 as usize) * 8
    }
}

/// The masked bit `(w >> i) & 1` as a number.
proof fn lemma_bit_value(w: u64, i: u64)
    requires
        i < 64,
    ensures
        (w >> i) & 1u64 == bitval(w, i),
{
    assert(i < 64 ==> (w >> i) & 1u64 == if bit(w, i) {
        1u64
    } else {
        0u64
    }) by (bit_vector);
}

} // verus!
