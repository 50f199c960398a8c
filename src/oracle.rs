use vstd::prelude::*;
use crate::bits::BOARD_SIZE;
use crate::board::Board;

verus! {

impl Board {
    /// Live cells among the first `k` cells of the 3 x 3 block around `(x, y)`, scanned
    /// row by row from `(x - 1, y - 1)`, with the centre (the fifth) left out.
    spec fn scan_count(self, x: int, y: int, k: int) -> nat
        decreases k,
    {
        if k <= 0 {
            0
        } else {
            self.scan_count(x, y, k - 1) + if k - 1 == 4 {
                0
            } else {
                self.cellval(x + (k - 1) % 3 - 1, y + (k - 1) / 3 - 1)
            }
        }
    }

    /// One more step of the scan reads the cell at offset `(sx - 1, sy - 1)` from `(x, y)`
    /// (skipping the centre), which the wrapped coordinates address.
    proof fn lemma_scan_step(self, x: int, y: int, sx: int, sy: int)
        requires
            0 <= x < 64,
            0 <= y < 64,
            0 <= sx < 3,
            0 <= sy < 3,
        ensures
            self.scan_count(x, y, 3 * sy + sx + 1) == self.scan_count(x, y, 3 * sy + sx) + if sx
                == 1 && sy == 1 {
                0
            } else {
                self.cellval(x + sx - 1, y + sy - 1)
            },
            self.cell((x + sx + 64 - 1) % 64, (y + sy + 64 - 1) % 64) == self.cell(
                x + sx - 1,
                y + sy - 1,
            ),
    {
        let k: int = 3 * sy + sx;
        vstd::arithmetic::div_mod::lemma_fundamental_div_mod_converse(k, 3, sy, sx);
        assert(k == 4 <==> (sx == 1 && sy == 1));
        let tx = (x + sx + 64 - 1) % 64;
        let ty = (y + sy + 64 - 1) % 64;
        vstd::arithmetic::div_mod::lemma_mod_add_multiples_vanish(x + sx - 1, 64);
        vstd::arithmetic::div_mod::lemma_mod_add_multiples_vanish(y + sy - 1, 64);
        vstd::arithmetic::div_mod::lemma_small_mod(tx as nat, 64);
        vstd::arithmetic::div_mod::lemma_small_mod(ty as nat, 64);
    }

    /// The number of live neighbours of `(x, y)`, counted one cell at a time.
    pub fn neighborcount(&self, x: usize, y: usize) -> (r: i32)
        requires
            x < 64,
            y < 64,
        ensures
            r as int == self.neighbors(x as int, y as int),
    {
        let mut acc: i32 = 0;
        let mut sy: usize = 0;
        while sy < 3
            invariant
                x < 64,
                y < 64,
                sy <= 3,
                0 <= acc <= 3 * sy,
                acc as int == self.scan_count(x as int, y as int, 3 * sy as int),
            decreases 3 - sy,
        {
            let mut sx: usize = 0;
            while sx < 3
                invariant
                    x < 64,
                    y < 64,
                    sy < 3,
                    sx <= 3,
                    0 <= acc <= 3 * sy + sx,
                    acc as int == self.scan_count(x as int, y as int, 3 * sy + sx),
                decreases 3 - sx,
            {
                let ty = (y + sy + BOARD_SIZE - 1) % BOARD_SIZE;
                let tx = (x + sx + BOARD_SIZE - 1) % BOARD_SIZE;
                proof {
                    self.lemma_scan_step(x as int, y as int, sx as int, sy as int);
                }
                if !(sx == 1 && sy == 1) && self.read(tx, ty) {
                    acc = acc + 1;
                }
                sx = sx + 1;
            }
            sy = sy + 1;
        }
        proof {
            reveal_with_fuel(Board::scan_count, 10);
        }
        acc
    }

    /// Sets cell `(x, y)` to its next-generation state computed from `old_board` by the
    /// scalar count, keeping every other cell.
    pub fn update_point(&mut self, old_board: &Board, x: usize, y: usize)
        requires
            x < 64,
            y < 64,
        ensures
            final(self).differs_only_at(
                *old(self),
                x as int,
                y as int,
                old_board.next_cell(x as int, y as int),
            ),
    {
        let acc = old_board.neighborcount(x, y);
        let mut w = false;
        if acc == 3 || (old_board.read(x, y) && acc == 2) {
            w = true;
        }
        self.write(x, y, w);
    }

    /// Overwrites `self` with the generation that follows `old_board`, one cell at a time
    /// through `update_point`: the reference against which `update` is checked.
    pub fn update_reference(&mut self, old_board: &Board)
        ensures
            final(self).is_next_generation_of(*old_board),
    {
        let mut y: usize = 0;
        while y < BOARD_SIZE
            invariant
                y <= 64,
                forall|i: int, j: int|
                    0 <= i < 64 && 0 <= j < y ==> #[trigger] self.cell(i, j) == old_board.next_cell(
                        i,
                        j,
                    ),
            decreases 64 - y,
        {
            let mut x: usize = 0;
            while x < BOARD_SIZE
                invariant
                    y < 64,
                    x <= 64,
                    forall|i: int, j: int|
                        0 <= i < 64 && 0 <= j < 64 && (j < y || (j == y && i < x))
                            ==> #[trigger] self.cell(i, j) == old_board.next_cell(i, j),
                decreases 64 - x,
            {
                self.update_point(old_board, x, y);
                x = x + 1;
            }
            y = y + 1;
        }
    }
}

} // verus!
