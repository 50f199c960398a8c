use vstd::prelude::*;
use crate::adder::{block_rule, window};
use crate::bits::{bit, col_after, col_before, lemma_bits_equal};
use crate::board::{life_rule, Board};

verus! {

/// The adder network's block count at `(x, y)`, the three-cell windows of rows `y - 1`,
/// `y` and `y + 1`, is the scalar neighbour count plus the cell itself.
pub proof fn lemma_block_count(b: Board, x: int, y: int)
    requires
        0 <= x < 64,
        0 <= y < 64,
    ensures
        window(b.row(y - 1), x as u64) + window(b.row(y), x as u64) + window(b.row(y + 1), x as u64)
            == b.neighbors(x, y) + b.cellval(x, y),
{
    let xs = x as u64;
    assert(col_before(xs) == ((x - 1) % 64) as u64);
    assert(col_after(xs) == ((x + 1) % 64) as u64);
    assert(xs == (x % 64) as u64);
}

/// Applying the rule to the block count (centre included) is the life rule on the
/// neighbour count: the bitwise engine and the scalar rule decide alike.
pub proof fn lemma_block_rule_is_life_rule(neighbors: nat, alive: bool)
    ensures
        block_rule(neighbors + if alive {
            1nat
        } else {
            0nat
        }, alive) == life_rule(neighbors, alive),
{
}

/// Two boards that agree on every cell hold the same words.
pub proof fn lemma_cells_determine_board(a: Board, b: Board)
    requires
        forall|x: int, y: int| 0 <= x < 64 && 0 <= y < 64 ==> #[trigger] a.cell(x, y) == b.cell(x, y),
    ensures
        a == b,
{
    assert forall|y: int| 0 <= y < 64 implies #[trigger] a.data@[y] == b.data@[y] by {
        assert forall|i: u64| i < 64 implies #[trigger] bit(a.data@[y], i) == bit(b.data@[y], i) by {
            assert(a.cell(i as int, y) == b.cell(i as int, y));
            assert(y % 64 == y && i as int % 64 == i);
        }
        lemma_bits_equal(a.data@[y], b.data@[y]);
    }
    assert(a.data =~= b.data);
}

/// The next generation is one board: what `update` computes row-wise through the adder
/// network is, bit for bit, what `update_reference` computes one cell at a time.
pub proof fn lemma_update_matches_reference(old_board: Board, by_rows: Board, by_cells: Board)
    requires
        by_rows.is_next_generation_of(old_board),
        by_cells.is_next_generation_of(old_board),
    ensures
        by_rows == by_cells,
{
    lemma_cells_determine_board(by_rows, by_cells);
}

/// The seed alone fixes the board that `Board::new` builds.
pub proof fn lemma_seed_determines_board(seed: u64, a: Board, b: Board)
    requires
        a.is_seeded_by(seed),
        b.is_seeded_by(seed),
    ensures
        a == b,
{
    assert(a.data =~= b.data);
}

/// Columns wrap: the neighbours of a cell in column 0 include the cells of column 63 on
/// the rows around it, and those of a cell in column 63 include column 0.
pub proof fn lemma_columns_wrap(b: Board, y: int)
    ensures
        b.neighbors(0, y) == b.cellval(63, y - 1) + b.cellval(63, y) + b.cellval(63, y + 1)
            + b.cellval(0, y - 1) + b.cellval(0, y + 1) + b.cellval(1, y - 1) + b.cellval(1, y)
            + b.cellval(1, y + 1),
        b.neighbors(63, y) == b.cellval(62, y - 1) + b.cellval(62, y) + b.cellval(62, y + 1)
            + b.cellval(63, y - 1) + b.cellval(63, y + 1) + b.cellval(0, y - 1) + b.cellval(0, y)
            + b.cellval(0, y + 1),
{
}

/// Rows wrap: the neighbours of a cell in row 0 include the cells of row 63 on the
/// columns around it, and those of a cell in row 63 include row 0.
pub proof fn lemma_rows_wrap(b: Board, x: int)
    ensures
        b.neighbors(x, 0) == b.cellval(x - 1, 63) + b.cellval(x, 63) + b.cellval(x + 1, 63)
            + b.cellval(x - 1, 0) + b.cellval(x + 1, 0) + b.cellval(x - 1, 1) + b.cellval(x, 1)
            + b.cellval(x + 1, 1),
        b.neighbors(x, 63) == b.cellval(x - 1, 62) + b.cellval(x, 62) + b.cellval(x + 1, 62)
            + b.cellval(x - 1, 63) + b.cellval(x + 1, 63) + b.cellval(x - 1, 0) + b.cellval(x, 0)
            + b.cellval(x + 1, 0),
{
}

/// Every cell of a board whose rows are all `w` reads bit `x % 64` of `w`.
proof fn lemma_uniform_cells(b: Board, w: u64, x: int, y: int)
    requires
        forall|k: int| 0 <= k < 64 ==> #[trigger] b.data@[k] == w,
    ensures
        b.cell(x, y) == bit(w, (x % 64) as u64),
{
    assert(b.data@[y % 64] == w);
}

/// A board with no live cell holds only zero words.
proof fn lemma_no_live_cell(b: Board)
    requires
        forall|x: int, y: int| 0 <= x < 64 && 0 <= y < 64 ==> !#[trigger] b.cell(x, y),
    ensures
        forall|y: int| 0 <= y < 64 ==> #[trigger] b.data@[y] == 0,
{
    assert forall|y: int| 0 <= y < 64 implies #[trigger] b.data@[y] == 0 by {
        assert forall|i: u64| i < 64 implies #[trigger] bit(b.data@[y], i) == bit(0u64, i) by {
            assert(!b.cell(i as int, y));
            assert(y % 64 == y && i as int % 64 == i);
            assert(i < 64 ==> !bit(0u64, i)) by (bit_vector);
        }
        lemma_bits_equal(b.data@[y], 0u64);
    }
}

/// An empty board stays empty.
pub proof fn lemma_empty_stays_empty(old_board: Board, next: Board)
    requires
        forall|y: int| 0 <= y < 64 ==> #[trigger] old_board.data@[y] == 0,
        next.is_next_generation_of(old_board),
    ensures
        forall|y: int| 0 <= y < 64 ==> #[trigger] next.data@[y] == 0,
{
    assert forall|dx: int, dy: int| #[trigger] old_board.cell(dx, dy) == false by {
        lemma_uniform_cells(old_board, 0, dx, dy);
        let i = (dx % 64) as u64;
        assert(i < 64);
        assert(i < 64 ==> !bit(0u64, i)) by (bit_vector);
    }
    assert forall|x: int, y: int| 0 <= x < 64 && 0 <= y < 64 implies !#[trigger] next.cell(x, y) by {
        assert(old_board.neighbors(x, y) == 0);
        assert(next.cell(x, y) == old_board.next_cell(x, y));
    }
    lemma_no_live_cell(next);
}

/// On a fully alive board every cell has eight live neighbours, so the next generation
/// is empty.
pub proof fn lemma_full_board_dies(old_board: Board, next: Board)
    requires
        forall|y: int| 0 <= y < 64 ==> #[trigger] old_board.data@[y] == u64::MAX,
        next.is_next_generation_of(old_board),
    ensures
        forall|x: int, y: int| 0 <= x < 64 && 0 <= y < 64 ==> #[trigger] old_board.neighbors(x, y) == 8,
        forall|y: int| 0 <= y < 64 ==> #[trigger] next.data@[y] == 0,
{
    assert forall|dx: int, dy: int| #[trigger] old_board.cell(dx, dy) by {
        lemma_uniform_cells(old_board, u64::MAX, dx, dy);
        let i = (dx % 64) as u64;
        assert(i < 64);
        assert(i < 64 ==> bit(0xffff_ffff_ffff_ffffu64, i)) by (bit_vector);
    }
    assert forall|x: int, y: int| 0 <= x < 64 && 0 <= y < 64 implies #[trigger] old_board.neighbors(x, y) == 8 by {
        assert(old_board.cell(x - 1, y - 1) && old_board.cell(x, y - 1) && old_board.cell(x + 1, y - 1));
        assert(old_board.cell(x - 1, y) && old_board.cell(x + 1, y));
        assert(old_board.cell(x - 1, y + 1) && old_board.cell(x, y + 1) && old_board.cell(x + 1, y + 1));
    }
    assert forall|x: int, y: int| 0 <= x < 64 && 0 <= y < 64 implies !#[trigger] next.cell(x, y) by {
        assert(old_board.neighbors(x, y) == 8);
        assert(next.cell(x, y) == old_board.next_cell(x, y));
    }
    lemma_no_live_cell(next);
}

/// Reading a cell right after writing it gives the value written, whatever it held.
pub proof fn lemma_read_after_write(before: Board, after: Board, x: int, y: int, val: bool)
    requires
        0 <= x < 64,
        0 <= y < 64,
        after.differs_only_at(before, x, y, val),
    ensures
        after.cell(x, y) == val,
{
    assert(after.cell(x, y) == if x == x && y == y {
        val
    } else {
        before.cell(x, y)
    });
}

} // verus!
