use vstd::prelude::*;

verus! {

/// Side length of the board: the bit width of `u64`, the word that holds one row.
pub const BOARD_SIZE: usize = 64;

/// Bit `i` of word `w` is set.
pub open spec fn bit(w: u64, i: u64) -> bool {
    (w >> i) & 1u64 == 1u64
}

/// Bit `i` of word `w` as the number 0 or 1.
pub open spec fn bitval(w: u64, i: u64) -> nat {
    if bit(w, i) {
        1
    } else {
        0
    }
}

/// Column to the left of `i` on the torus (the one that `rotate_left(1)` moves onto `i`).
pub open spec fn col_before(i: u64) -> u64 {
    ((i + 63) % 64) as u64
}

/// Column to the right of `i` on the torus (the one that `rotate_right(1)` moves onto `i`).
pub open spec fn col_after(i: u64) -> u64 {
    ((i + 1) % 64) as u64
}

/// Relies on u64::rotate_left: every bit moves up by one, the top bit wrapping to bit 0.
#[verifier::external_body]
pub(crate) fn rotate_left_one(a: u64) -> (r: u64)
    ensures
        r == (a << 1u64) | (a >> 63u64),
{
    a.rotate_left(1)
}

/// Relies on u64::rotate_right: every bit moves down by one, bit 0 wrapping to the top.
#[verifier::external_body]
pub(crate) fn rotate_right_one(a: u64) -> (r: u64)
    ensures
        r == (a >> 1u64) | (a << 63u64),
{
    a.rotate_right(1)
}

pub proof fn lemma_bit_rotl(a: u64, i: u64)
    requires
        i < 64,
    ensures
        bit((a << 1u64) | (a >> 63u64), i) == bit(a, col_before(i)),
{
    let j = col_before(i);
    assert(j == if i == 0 { 63u64 } else { (i - 1) as u64 });
    assert(i < 64 && j == (if i == 0 { 63u64 } else { (i - 1) as u64 }) ==> (((a << 1u64) | (a
        >> 63u64)) >> i) & 1u64 == (a >> j) & 1u64) by (bit_vector);
}

pub proof fn lemma_bit_rotr(a: u64, i: u64)
    requires
        i < 64,
    ensures
        bit((a >> 1u64) | (a << 63u64), i) == bit(a, col_after(i)),
{
    let j = col_after(i);
    assert(j == if i == 63 { 0u64 } else { (i + 1) as u64 });
    assert(i < 64 && j == (if i == 63 { 0u64 } else { (i + 1) as u64 }) ==> (((a >> 1u64) | (a
        << 63u64)) >> i) & 1u64 == (a >> j) & 1u64) by (bit_vector);
}

/// How `^`, `&`, `|` and `!` act on a single bit.
pub proof fn lemma_bit_ops(a: u64, b: u64, i: u64)
    requires
        i < 64,
    ensures
        bit(a ^ b, i) == (bit(a, i) != bit(b, i)),
        bit(a & b, i) == (bit(a, i) && bit(b, i)),
        bit(a | b, i) == (bit(a, i) || bit(b, i)),
        bit(!a, i) == !bit(a, i),
{
    assert(i < 64 ==> (((a ^ b) >> i) & 1u64 == 1u64) == ((((a >> i) & 1u64) == 1u64) != (((b
        >> i) & 1u64) == 1u64))) by (bit_vector);
    assert(i < 64 ==> (((a & b) >> i) & 1u64 == 1u64) == ((((a >> i) & 1u64) == 1u64) && (((b
        >> i) & 1u64) == 1u64))) by (bit_vector);
    assert(i < 64 ==> (((a | b) >> i) & 1u64 == 1u64) == ((((a >> i) & 1u64) == 1u64) || (((b
        >> i) & 1u64) == 1u64))) by (bit_vector);
    assert(i < 64 ==> (((!a) >> i) & 1u64 == 1u64) == !(((a >> i) & 1u64) == 1u64))
        by (bit_vector);
}

/// Words that agree on their low `k` bits differ only above them.
proof fn lemma_low_bits_equal(a: u64, b: u64, k: u64)
    requires
        k <= 63,
        forall|i: u64| i < k ==> #[trigger] bit(a, i) == bit(b, i),
    ensures
        (a ^ b) & (((1u64 << k) - 1u64) as u64) == 0,
    decreases k,
{
    let x = a ^ b;
    if k == 0 {
        assert(x & (((1u64 << 0u64) - 1u64) as u64) == 0) by (bit_vector);
    } else {
        let j = (k - 1) as u64;
        lemma_low_bits_equal(a, b, j);
        assert(bit(a, j) == bit(b, j));
        lemma_bit_ops(a, b, j);
        assert((x >> j) & 1u64 != 1u64);
        assert(j < 63 && x & (((1u64 << j) - 1u64) as u64) == 0 && (x >> j) & 1u64 != 1u64 ==> x
            & (((1u64 << ((j + 1) as u64)) - 1u64) as u64) == 0) by (bit_vector);
    }
}

/// Two words with the same bits are equal.
pub proof fn lemma_bits_equal(a: u64, b: u64)
    requires
        forall|i: u64| i < 64 ==> #[trigger] bit(a, i) == bit(b, i),
    ensures
        a == b,
{
    lemma_low_bits_equal(a, b, 63);
    lemma_bit_ops(a, b, 63);
    assert(bit(a, 63) == bit(b, 63));
    let x = a ^ b;
    assert(x & (((1u64 << 63u64) - 1u64) as u64) == 0 && (x >> 63u64) & 1u64 != 1u64 && x == a
        ^ b ==> a == b) by (bit_vector);
}

} // verus!
