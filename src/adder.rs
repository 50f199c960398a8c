use vstd::prelude::*;
use crate::bits::{
    bit, bitval, col_after, col_before, lemma_bit_ops, lemma_bit_rotl, lemma_bit_rotr,
    rotate_left_one, rotate_right_one,
};
use crate::board::Board;

verus! {

/// Value at column `i` of a two-plane count (ones plane, twos plane).
pub open spec fn pair_value(p: (u64, u64), i: u64) -> nat {
    bitval(p.0, i) + 2 * bitval(p.1, i)
}

/// Value at column `i` of a four-plane count (planes of 1, 2, 4 and 8).
pub open spec fn planes_value(s: (u64, u64, u64, u64), i: u64) -> nat {
    bitval(s.0, i) + 2 * bitval(s.1, i) + 4 * bitval(s.2, i) + 8 * bitval(s.3, i)
}

/// Live cells of row word `a` at columns `i - 1`, `i` and `i + 1`, wrapping around.
pub open spec fn window(a: u64, i: u64) -> nat {
    bitval(a, col_before(i)) + bitval(a, i) + bitval(a, col_after(i))
}

/// The life rule stated on the live count of a 3 x 3 block, the centre cell included:
/// the centre lives iff the block holds 3, or the centre is alive and the block holds 4.
pub open spec fn block_rule(total: nat, alive: bool) -> bool {
    total == 3 || (alive && total == 4)
}

impl Board {
    /// Bitwise half adder: for every column, the sum and carry bit of `a + b`.
    pub fn half_add(a: u64, b: u64) -> (r: (u64, u64))
        ensures
            r.0 == a ^ b,
            r.1 == a & b,
            forall|i: u64| i < 64 ==> #[trigger] pair_value(r, i) == bitval(a, i) + bitval(b, i),
    {
        let r = (a ^ b, a & b);
        assert forall|i: u64| i < 64 implies #[trigger] pair_value(r, i) == bitval(a, i) + bitval(
            b,
            i,
        ) by {
            lemma_bit_ops(a, b, i);
        }
        r
    }

    /// Bitwise full adder: for every column, the sum bit (parity) and the carry bit
    /// (majority) of `a + b + c`.
    pub fn full_add(a: u64, b: u64, c: u64) -> (r: (u64, u64))
        ensures
            r.0 == a ^ b ^ c,
            r.1 == (a & b) | (a & c) | (b & c),
            forall|i: u64|
                i < 64 ==> #[trigger] pair_value(r, i) == bitval(a, i) + bitval(b, i) + bitval(c, i),
    {
        let h1 = Board::half_add(a, b);
        let h2 = Board::half_add(h1.0, c);
        let r = (h2.0, h1.1 | h2.1);
        assert((a & b) | ((a ^ b) & c) == (a & b) | (a & c) | (b & c)) by (bit_vector);
        assert forall|i: u64| i < 64 implies #[trigger] pair_value(r, i) == bitval(a, i) + bitval(
            b,
            i,
        ) + bitval(c, i) by {
            assert(pair_value(h1, i) == bitval(a, i) + bitval(b, i));
            assert(pair_value(h2, i) == bitval(h1.0, i) + bitval(c, i));
            lemma_bit_ops(h1.1, h2.1, i);
        }
        r
    }
    /// For every column, the two-plane count of live cells among that column and its
    /// two horizontal neighbours in row word `a`, wrapping around.
    pub fn partial_sum(a: u64) -> (r: (u64, u64))
        ensures
            forall|i: u64| i < 64 ==> #[trigger] pair_value(r, i) == window(a, i),
    {
        let b = rotate_left_one(a);
        let c = rotate_right_one(a);
        let r = Board::full_add(a, b, c);
        assert forall|i: u64| i < 64 implies #[trigger] pair_value(r, i) == window(a, i) by {
            lemma_bit_rotl(a, i);
            lemma_bit_rotr(a, i);
            assert(pair_value(r, i) == bitval(a, i) + bitval(b, i) + bitval(c, i));
        }
        r
    }

    /// Adds three two-plane counts column by column into one four-plane count.
    pub fn sum_of_partials(p1: (u64, u64), p2: (u64, u64), p3: (u64, u64)) -> (r: (
        u64,
        u64,
        u64,
        u64,
    ))
        ensures
            forall|i: u64|
                i < 64 ==> #[trigger] planes_value(r, i) == pair_value(p1, i) + pair_value(p2, i)
                    + pair_value(p3, i),
    {
        let f1 = Board::full_add(p1.0, p2.0, p3.0);
        let s1 = f1.0;
        let f2 = Board::full_add(p1.1, p2.1, p3.1);
        let h1 = Board::half_add(f1.1, f2.0);
        let s2 = h1.0;
        let h2 = Board::half_add(f2.1, h1.1);
        let r = (s1, s2, h2.0, h2.1);
        assert forall|i: u64| i < 64 implies #[trigger] planes_value(r, i) == pair_value(p1, i)
            + pair_value(p2, i) + pair_value(p3, i) by {
            assert(pair_value(f1, i) == bitval(p1.0, i) + bitval(p2.0, i) + bitval(p3.0, i));
            assert(pair_value(f2, i) == bitval(p1.1, i) + bitval(p2.1, i) + bitval(p3.1, i));
            assert(pair_value(h1, i) == bitval(f1.1, i) + bitval(f2.0, i));
            assert(pair_value(h2, i) == bitval(f2.1, i) + bitval(h1.1, i));
        }
        r
    }

    /// For every column of the middle row `b`, the four-plane count of live cells in the
    /// 3 x 3 block around it (rows `a`, `b`, `c`), the cell itself included.
    pub fn full_sum(a: u64, b: u64, c: u64) -> (r: (u64, u64, u64, u64))
        ensures
            forall|i: u64|
                i < 64 ==> #[trigger] planes_value(r, i) == window(a, i) + window(b, i) + window(
                    c,
                    i,
                ),
    {
        let pa = Board::partial_sum(a);
        let pb = Board::partial_sum(b);
        let pc = Board::partial_sum(c);
        let r = Board::sum_of_partials(pa, pb, pc);
        assert forall|i: u64| i < 64 implies #[trigger] planes_value(r, i) == window(a, i)
            + window(b, i) + window(c, i) by {
            assert(pair_value(pa, i) == window(a, i));
            assert(pair_value(pb, i) == window(b, i));
            assert(pair_value(pc, i) == window(c, i));
        }
        r
    }

    /// Applies the life rule to every column at once, from the four-plane count of the
    /// 3 x 3 block (cell included) and the row's current state: a cell lives iff the
    /// block holds 3, or it is alive and the block holds 4.
    pub fn next_row_state_from_sum(sum: (u64, u64, u64, u64), state: u64) -> (r: u64)
        ensures
            forall|i: u64|
                i < 64 ==> #[trigger] bit(r, i) == block_rule(planes_value(sum, i), bit(state, i)),
    {
        let (s0, s1, s2, s3) = sum;
        let r = ((s0 & s1 & (!s2)) | (state & (!s0) & (!s1) & s2)) & (!s3);
        assert forall|i: u64| i < 64 implies #[trigger] bit(r, i) == block_rule(
            planes_value(sum, i),
            bit(state, i),
        ) by {
            lemma_rule_bits(s0, s1, s2, s3, state, i);
        }
        r
    }
}

/// How the rule formula acts on one column.
proof fn lemma_rule_bits(s0: u64, s1: u64, s2: u64, s3: u64, st: u64, i: u64)
    requires
        i < 64,
    ensures
        bit(((s0 & s1 & (!s2)) | (st & (!s0) & (!s1) & s2)) & (!s3), i) == (((bit(s0, i) && bit(
            s1,
            i,
        ) && !bit(s2, i)) || (bit(st, i) && !bit(s0, i) && !bit(s1, i) && bit(s2, i))) && !bit(
            s3,
            i,
        )),
{
    assert(i < 64 ==> bit(((s0 & s1 & (!s2)) | (st & (!s0) & (!s1) & s2)) & (!s3), i) == (((bit(
        s0,
        i,
    ) && bit(s1, i) && !bit(s2, i)) || (bit(st, i) && !bit(s0, i) && !bit(s1, i) && bit(s2, i)))
        && !bit(s3, i))) by (bit_vector);
}

} // verus!
