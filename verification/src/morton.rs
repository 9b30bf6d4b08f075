//! Two-dimensional Morton (Z-order) codes over a sixteen-bit coordinate space.
//!
//! A Morton code linearises a grid so that cells close to each other on the
//! grid tend to be close to each other on the line. The code of a cell is
//! obtained by writing the binary digits of its column on the even positions
//! and those of its row on the odd positions.

use vstd::prelude::*;
use vstd::arithmetic::div_mod::lemma_div_denominator;
use vstd::arithmetic::power2::{lemma2_to64, lemma_pow2_adds, lemma_pow2_pos, pow2};

verus! {

/// The Morton code of the cell in column `x` and row `y`: digit `i` of `x`
/// becomes digit `2 * i` of the code, digit `i` of `y` becomes digit `2 * i + 1`.
pub open spec fn interleave(x: nat, y: nat) -> nat
    decreases x + y,
{
    if x == 0 && y == 0 {
        0
    } else {
        (x % 2) + 2 * (y % 2) + 4 * interleave(x / 2, y / 2)
    }
}

/// The sixteen-bit coordinate that a 32-bit value contributes to a code.
///
/// A value below 65536 stands for itself. Of a larger value, bits 16 to 23
/// are folded onto bits 8 to 15 and bits 24 to 31 are dropped, which is what
/// the shift-and-mask cascade of [`spread_bits`] does to them.
pub open spec fn coordinate(v: u32) -> u32 {
    (v & 0xffff) | ((v >> 8) & 0xff00)
}

/// The shift-and-mask cascade, as a formula on bit vectors.
spec fn cascade(v: u32) -> u32 {
    let a: u32 = (v | (v << 8)) & 0x00FF_00FF;
    let b: u32 = (a | (a << 4)) & 0x0F0F_0F0F;
    let c: u32 = (b | (b << 2)) & 0x3333_3333;
    (c | (c << 1)) & 0x5555_5555
}

proof fn lemma_cascade_folds(v: u32)
    ensures
        cascade(v) == cascade(coordinate(v)),
        coordinate(v) < 0x1_0000,
        v < 0x1_0000 ==> coordinate(v) == v,
{
    assert(cascade(v) == cascade(coordinate(v))) by (bit_vector);
    assert(coordinate(v) < 0x1_0000) by (bit_vector);
    assert(v < 0x1_0000 ==> coordinate(v) == v) by (bit_vector);
}

proof fn lemma_cascade_unfolds(c: u32)
    requires
        c < 0x1_0000,
    ensures
        cascade(0) == 0,
        cascade(c) == (c % 2) + 4 * cascade(c / 2),
{
    assert(cascade(0) == 0) by (bit_vector);
    assert(c < 0x1_0000 ==> cascade(c) == (c % 2) + 4 * cascade(c / 2)) by (bit_vector);
}

proof fn lemma_cascade_is_interleave(c: u32)
    requires
        c < 0x1_0000,
    ensures
        cascade(c) == interleave(c as nat, 0),
    decreases c,
{
    lemma_cascade_unfolds(c);
    if c != 0 {
        lemma_cascade_is_interleave(c / 2);
    }
}

/// A code is the sum of its two lanes: the digits of `x` spread over the even
/// positions, and the digits of `y` spread over the even positions and then
/// moved up by one.
pub proof fn lemma_interleave_splits(x: nat, y: nat)
    ensures
        interleave(x, y) == interleave(x, 0) + 2 * interleave(y, 0),
    decreases x + y,
{
    if x == 0 && y == 0 {
    } else {
        lemma_interleave_splits(x / 2, y / 2);
        if x != 0 {
            assert(interleave(x, 0) == (x % 2) + 4 * interleave(x / 2, 0));
        }
        if y != 0 {
            assert(interleave(y, 0) == (y % 2) + 4 * interleave(y / 2, 0));
        }
    }
}

/// The two lowest digits of a code are the lowest digit of the column and the
/// lowest digit of the row; the digits above them are the code of the cell at
/// half the column and half the row.
pub proof fn lemma_interleave_unfolds(x: nat, y: nat)
    ensures
        interleave(x, y) == (x % 2) + 2 * (y % 2) + 4 * interleave(x / 2, y / 2),
        interleave(x, y) % 4 == (x % 2) + 2 * (y % 2),
        interleave(x, y) / 4 == interleave(x / 2, y / 2),
{
    if x == 0 && y == 0 {
        assert(interleave(0, 0) == 0);
    }
}

/// Binary digit `i` of `v`, the digit of weight `2^i`.
pub open spec fn digit(v: nat, i: nat) -> nat {
    (v / pow2(i)) % 2
}

/// Digit `i` of the column is digit `2 * i` of the code, and digit `i` of the
/// row is digit `2 * i + 1` of the code.
pub proof fn lemma_interleave_digits(x: nat, y: nat, i: nat)
    ensures
        digit(interleave(x, y), 2 * i) == digit(x, i),
        digit(interleave(x, y), 2 * i + 1) == digit(y, i),
    decreases i,
{
    let code = interleave(x, y);
    lemma_interleave_unfolds(x, y);
    lemma2_to64();
    if i == 0 {
        assert(code / 2 % 2 == y % 2);
    } else {
        let j = (i - 1) as nat;
        lemma_interleave_digits(x / 2, y / 2, j);
        lemma_pow2_adds(2, 2 * j);
        lemma_pow2_adds(2, 2 * j + 1);
        lemma_pow2_adds(1, j);
        lemma_pow2_pos(2 * j);
        lemma_pow2_pos(2 * j + 1);
        lemma_pow2_pos(j);
        lemma_div_denominator(code as int, 4, pow2(2 * j) as int);
        lemma_div_denominator(code as int, 4, pow2(2 * j + 1) as int);
        lemma_div_denominator(x as int, 2, pow2(j) as int);
        lemma_div_denominator(y as int, 2, pow2(j) as int);
        assert(pow2(2 * i) == 4 * pow2(2 * j));
        assert(pow2(2 * i + 1) == 4 * pow2(2 * j + 1));
        assert(pow2(i) == 2 * pow2(j));
    }
}

/// Two cells with the same code are the same cell.
pub proof fn lemma_interleave_injective(x1: nat, y1: nat, x2: nat, y2: nat)
    requires
        interleave(x1, y1) == interleave(x2, y2),
    ensures
        x1 == x2,
        y1 == y2,
    decreases x1 + y1 + x2 + y2,
{
    if x1 + y1 + x2 + y2 != 0 {
        lemma_interleave_unfolds(x1, y1);
        lemma_interleave_unfolds(x2, y2);
        lemma_interleave_injective(x1 / 2, y1 / 2, x2 / 2, y2 / 2);
    }
}

/// A value below 65536 is its own coordinate.
pub proof fn lemma_coordinate_exact(v: u32)
    ensures
        coordinate(v) < 0x1_0000,
        v < 0x1_0000 ==> coordinate(v) == v,
{
    lemma_cascade_folds(v);
}

/// Moves bit `i` of the sixteen-bit coordinate of `v` to bit `2 * i`, for
/// every `i`, and clears the odd bits.
pub fn spread_bits(v: u32) -> (r: u32)
    ensures
        r == interleave(coordinate(v) as nat, 0),
        r & 0xAAAA_AAAA == 0,
{
    let a: u32 = (v | (v << 8)) & 0x00FF_00FF;
    let b: u32 = (a | (a << 4)) & 0x0F0F_0F0F;
    let c: u32 = (b | (b << 2)) & 0x3333_3333;
    let r: u32 = (c | (c << 1)) & 0x5555_5555;
    proof {
        assert(r == cascade(v));
        assert(r & 0xAAAA_AAAA == 0) by (bit_vector)
            requires
                r == (c | (c << 1)) & 0x5555_5555,
        ;
        lemma_cascade_folds(v);
        lemma_cascade_unfolds(coordinate(v));
        lemma_cascade_is_interleave(coordinate(v));
    }
    r
}

/// The Morton code of the cell whose column is `x` and whose row is `y`.
pub fn morton_code(x: u32, y: u32) -> (code: u32)
    ensures
        code == interleave(coordinate(x) as nat, coordinate(y) as nat),
{
    let even: u32 = spread_bits(x);
    let odd: u32 = spread_bits(y);
    let code: u32 = even | (odd << 1);
    proof {
        assert(code == even + 2 * odd) by (bit_vector)
            requires
                code == even | (odd << 1),
                even & 0xAAAA_AAAA == 0,
                odd & 0xAAAA_AAAA == 0,
        ;
        lemma_interleave_splits(coordinate(x) as nat, coordinate(y) as nat);
    }
    code
}

} // verus!
