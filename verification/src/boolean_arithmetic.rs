//! Ripple-carry arithmetic over 16-bit buses, and the ALU. The adder wraps
//! at 16 bits: the final carry is discarded.
use vstd::prelude::*;

use crate::boolean_logic::{
    and, and16, and16_built_in, mux16, mux16_built_in, not, not16, not16_built_in, or, or8way,
    or8way_built_in, xor, Binary, Word,
};
use crate::helper::u16_to_word;
use crate::model::{
    b2n, bits16, lemma_bits16_of_val16, lemma_place_value, lemma_val16_bound, lemma_val16_zero,
    lemma_val_prefix_16, lemma_val_prefix_update, pow2k, val16, val_prefix, zeros,
};

verus! {

/// Bitwise complement of a bus.
pub open spec fn flip_bits(w: Seq<bool>) -> Seq<bool> {
    Seq::new(w.len(), |i: int| !w[i])
}

/// Bitwise conjunction of two buses.
pub open spec fn and_bits(a: Seq<bool>, b: Seq<bool>) -> Seq<bool> {
    Seq::new(a.len(), |i: int| a[i] && b[i])
}

/// The 16-bit wrapping sum of two words, as bits.
pub open spec fn add_bits(a: Seq<bool>, b: Seq<bool>) -> Seq<bool> {
    bits16((((val16(a) + val16(b)) % 0x10000) as u16))
}

/// What the ALU computes: zx zeroes x, nx then complements it, zy/ny do the
/// same to y, f picks addition over conjunction, and no complements the
/// result.
pub open spec fn alu_bits(
    x: Seq<bool>,
    y: Seq<bool>,
    zx: bool,
    nx: bool,
    zy: bool,
    ny: bool,
    f: bool,
    no: bool,
) -> Seq<bool> {
    let x1 = if zx {
        zeros(16)
    } else {
        x
    };
    let x2 = if nx {
        flip_bits(x1)
    } else {
        x1
    };
    let y1 = if zy {
        zeros(16)
    } else {
        y
    };
    let y2 = if ny {
        flip_bits(y1)
    } else {
        y1
    };
    let xy = if f {
        add_bits(x2, y2)
    } else {
        and_bits(x2, y2)
    };
    if no {
        flip_bits(xy)
    } else {
        xy
    }
}

pub fn half_adder(a: Binary, b: Binary) -> (r: (Binary, Binary))
    ensures
        r.0 == (a != b),
        r.1 == (a && b),
        b2n(r.0) + 2 * b2n(r.1) == b2n(a) + b2n(b),
{
    let sum = xor(a, b);
    let carry = and(a, b);
    (sum, carry)
}

pub fn half_adder_built_in(a: Binary, b: Binary) -> (r: (Binary, Binary))
    ensures
        r.0 == (a != b),
        r.1 == (a && b),
        b2n(r.0) + 2 * b2n(r.1) == b2n(a) + b2n(b),
{
    let sum = a ^ b;
    let carry = a && b;
    (sum, carry)
}

pub fn full_adder(a: Binary, b: Binary, c: Binary) -> (r: (Binary, Binary))
    ensures
        b2n(r.0) + 2 * b2n(r.1) == b2n(a) + b2n(b) + b2n(c),
{
    let (sum0, carry0) = half_adder(a, b);
    let (sum, carry1) = half_adder(sum0, c);
    let carry = or(carry0, carry1);
    (sum, carry)
}

pub fn full_adder_built_in(a: Binary, b: Binary, c: Binary) -> (r: (Binary, Binary))
    ensures
        b2n(r.0) + 2 * b2n(r.1) == b2n(a) + b2n(b) + b2n(c),
{
    let (sum0, carry0) = half_adder_built_in(a, b);
    let (sum, carry1) = half_adder_built_in(sum0, c);
    let carry = carry0 || carry1;
    (sum, carry)
}

/// One step of the ripple carry: with the loop at bit `i`, the low `i` bits
/// of the operands and of the sum agree up to the carry at weight 2^i.
proof fn lemma_ripple_step(
    a: Seq<bool>,
    b: Seq<bool>,
    sum0: Seq<bool>,
    s: bool,
    cin: bool,
    cout: bool,
    i: int,
)
    requires
        0 <= i < 16,
        a.len() == 16,
        b.len() == 16,
        sum0.len() == 16,
        val_prefix(a, i) + val_prefix(b, i) == val_prefix(sum0, i) + pow2k(i) * b2n(cin),
        b2n(s) + 2 * b2n(cout) == b2n(a[i]) + b2n(b[i]) + b2n(cin),
    ensures
        val_prefix(a, i + 1) + val_prefix(b, i + 1) == val_prefix(sum0.update(i, s), i + 1) + pow2k(
            i + 1,
        ) * b2n(cout),
{
    lemma_val_prefix_update(sum0, i, s, i);
    assert(pow2k(i + 1) == 2 * pow2k(i));
    assert(val_prefix(sum0.update(i, s), i + 1) == val_prefix(sum0, i) + pow2k(i) * b2n(s));
    assert(pow2k(i) * b2n(cin) + pow2k(i) * (b2n(s) + 2 * b2n(cout)) == pow2k(i) * b2n(s) + 2
        * pow2k(i) * b2n(cout) + pow2k(i) * b2n(cin)) by (nonlinear_arith);
    assert(pow2k(i) * (b2n(s) + 2 * b2n(cout)) == pow2k(i) * (b2n(a[i]) + b2n(b[i]) + b2n(cin)))
        by (nonlinear_arith)
        requires
            b2n(s) + 2 * b2n(cout) == b2n(a[i]) + b2n(b[i]) + b2n(cin),
    ;
    assert(pow2k(i) * (b2n(a[i]) + b2n(b[i]) + b2n(cin)) == pow2k(i) * b2n(a[i]) + pow2k(i) * b2n(
        b[i],
    ) + pow2k(i) * b2n(cin)) by (nonlinear_arith);
}

/// The wrapping sum, read back from the loop invariant once the carry out
/// of bit 15 is discarded.
proof fn lemma_add16_post(a: Seq<bool>, b: Seq<bool>, sum: Seq<bool>, carry: bool)
    requires
        a.len() == 16,
        b.len() == 16,
        sum.len() == 16,
        val_prefix(a, 16) + val_prefix(b, 16) == val_prefix(sum, 16) + pow2k(16) * b2n(carry),
    ensures
        val16(sum) == (val16(a) + val16(b)) % 0x10000,
        sum == add_bits(a, b),
{
    lemma_val_prefix_16(a);
    lemma_val_prefix_16(b);
    lemma_val_prefix_16(sum);
    lemma_val16_bound(sum);
    lemma_place_value(val16(a) + val16(b), 0x10000, b2n(carry), val16(sum));
    lemma_bits16_of_val16(sum);
}

pub fn add16(a: Word, b: Word) -> (r: Word)
    ensures
        val16(r@) == (val16(a@) + val16(b@)) % 0x10000,
        r@ == add_bits(a@, b@),
{
    let mut sum: Word = [false;16];
    let mut carry: Binary = false;
    for i in 0..16
        invariant
            val_prefix(a@, i as int) + val_prefix(b@, i as int) == val_prefix(sum@, i as int)
                + pow2k(i as int) * b2n(carry),
    {
        let (s, c) = full_adder(a[i], b[i], carry);
        proof {
            lemma_ripple_step(a@, b@, sum@, s, carry, c, i as int);
        }
        sum[i] = s;
        carry = c;
    }
    proof {
        lemma_add16_post(a@, b@, sum@, carry);
    }
    sum
}

pub fn add16_built_in(a: Word, b: Word) -> (r: Word)
    ensures
        val16(r@) == (val16(a@) + val16(b@)) % 0x10000,
        r@ == add_bits(a@, b@),
{
    let mut sum: Word = [false;16];
    let mut carry: Binary = false;
    for i in 0..16
        invariant
            val_prefix(a@, i as int) + val_prefix(b@, i as int) == val_prefix(sum@, i as int)
                + pow2k(i as int) * b2n(carry),
    {
        let (s, c) = full_adder_built_in(a[i], b[i], carry);
        proof {
            lemma_ripple_step(a@, b@, sum@, s, carry, c, i as int);
        }
        sum[i] = s;
        carry = c;
    }
    proof {
        lemma_add16_post(a@, b@, sum@, carry);
    }
    sum
}

pub fn inc16(input: Word) -> (r: Word)
    ensures
        val16(r@) == (val16(input@) + 1) % 0x10000,
        r@ == add_bits(input@, bits16(1)),
{
    add16(input, u16_to_word(0b0000_0000_0000_0001))
}

pub fn inc16_built_in(input: Word) -> (r: Word)
    ensures
        val16(r@) == (val16(input@) + 1) % 0x10000,
        r@ == add_bits(input@, bits16(1)),
{
    add16_built_in(input, u16_to_word(0b0000_0000_0000_0001))
}


/// The low eight bits of a word, for the zero-flag NOR tree.
fn low_half(w: &Word) -> (r: [Binary; 8])
    ensures
        forall|i: int| 0 <= i < 8 ==> r@[i] == w@[i],
{
    [w[0], w[1], w[2], w[3], w[4], w[5], w[6], w[7]]
}

/// The high eight bits of a word, for the zero-flag NOR tree.
fn high_half(w: &Word) -> (r: [Binary; 8])
    ensures
        forall|i: int| 0 <= i < 8 ==> r@[i] == w@[i + 8],
{
    [w[8], w[9], w[10], w[11], w[12], w[13], w[14], w[15]]
}
/// The word the ALU yields, before the flags are read off.
fn alu_core(
    x: Word,
    y: Word,
    zx: Binary,
    nx: Binary,
    zy: Binary,
    ny: Binary,
    f: Binary,
    no: Binary,
) -> (output: Word)
    ensures
        output@ == alu_bits(x@, y@, zx, nx, zy, ny, f, no),
{
    let x1 = mux16(x, u16_to_word(0b0000_0000_0000_0000), zx);
    let flip_x1 = not16(x1);
    let x2 = mux16(x1, flip_x1, nx);
    let y1 = mux16(y, u16_to_word(0b0000_0000_0000_0000), zy);
    let flip_y1 = not16(y1);
    let y2 = mux16(y1, flip_y1, ny);

    let anded = and16(x2, y2);
    let added = add16(x2, y2);
    let xy = mux16(anded, added, f);
    let flip_xy = not16(xy);
    let output = mux16(xy, flip_xy, no);

    proof {
        assert(bits16(0) =~= zeros(16));
        let gx1 = if zx {
            zeros(16)
        } else {
            x@
        };
        assert(x1@ == gx1);
        assert(flip_x1@ =~= flip_bits(gx1));
        let gx2 = if nx {
            flip_bits(gx1)
        } else {
            gx1
        };
        assert(x2@ == gx2);
        let gy1 = if zy {
            zeros(16)
        } else {
            y@
        };
        assert(y1@ == gy1);
        assert(flip_y1@ =~= flip_bits(gy1));
        let gy2 = if ny {
            flip_bits(gy1)
        } else {
            gy1
        };
        assert(y2@ == gy2);
        assert(anded@ =~= and_bits(gx2, gy2));
        let gxy = if f {
            add_bits(gx2, gy2)
        } else {
            and_bits(gx2, gy2)
        };
        assert(xy@ == gxy);
        assert(flip_xy@ =~= flip_bits(gxy));
        let gout = if no {
            flip_bits(gxy)
        } else {
            gxy
        };
        assert(output@ == gout);
        assert(gout == alu_bits(x@, y@, zx, nx, zy, ny, f, no));
    }
    output
}

pub fn alu(
    x: Word,
    y: Word,
    zx: Binary,
    nx: Binary,
    zy: Binary,
    ny: Binary,
    f: Binary,
    no: Binary,
) -> (r: (Word, Binary, Binary))
    ensures
        r.0@ == alu_bits(x@, y@, zx, nx, zy, ny, f, no),
        r.1 == (val16(r.0@) == 0),
        r.2 == r.0@[15],
{
    let output = alu_core(x, y, zx, nx, zy, ny, f, no);
    let output1 = low_half(&output);
    let output2 = high_half(&output);
    let zr = not(or(or8way(output1), or8way(output2)));
    let ng = output[15];
    proof {
        lemma_val16_zero(output@);
    }
    (output, zr, ng)
}

/// The word the ALU yields, before the flags are read off.
fn alu_core_built_in(
    x: Word,
    y: Word,
    zx: Binary,
    nx: Binary,
    zy: Binary,
    ny: Binary,
    f: Binary,
    no: Binary,
) -> (output: Word)
    ensures
        output@ == alu_bits(x@, y@, zx, nx, zy, ny, f, no),
{
    let x1 = mux16_built_in(x, u16_to_word(0b0000_0000_0000_0000), zx);
    let flip_x1 = not16_built_in(x1);
    let x2 = mux16_built_in(x1, flip_x1, nx);
    let y1 = mux16_built_in(y, u16_to_word(0b0000_0000_0000_0000), zy);
    let flip_y1 = not16_built_in(y1);
    let y2 = mux16_built_in(y1, flip_y1, ny);

    let anded = and16_built_in(x2, y2);
    let added = add16_built_in(x2, y2);
    let xy = mux16_built_in(anded, added, f);
    let flip_xy = not16_built_in(xy);
    let output = mux16_built_in(xy, flip_xy, no);

    proof {
        assert(bits16(0) =~= zeros(16));
        let gx1 = if zx {
            zeros(16)
        } else {
            x@
        };
        assert(x1@ == gx1);
        assert(flip_x1@ =~= flip_bits(gx1));
        let gx2 = if nx {
            flip_bits(gx1)
        } else {
            gx1
        };
        assert(x2@ == gx2);
        let gy1 = if zy {
            zeros(16)
        } else {
            y@
        };
        assert(y1@ == gy1);
        assert(flip_y1@ =~= flip_bits(gy1));
        let gy2 = if ny {
            flip_bits(gy1)
        } else {
            gy1
        };
        assert(y2@ == gy2);
        assert(anded@ =~= and_bits(gx2, gy2));
        let gxy = if f {
            add_bits(gx2, gy2)
        } else {
            and_bits(gx2, gy2)
        };
        assert(xy@ == gxy);
        assert(flip_xy@ =~= flip_bits(gxy));
        let gout = if no {
            flip_bits(gxy)
        } else {
            gxy
        };
        assert(output@ == gout);
        assert(gout == alu_bits(x@, y@, zx, nx, zy, ny, f, no));
    }
    output
}

pub fn alu_built_in(
    x: Word,
    y: Word,
    zx: Binary,
    nx: Binary,
    zy: Binary,
    ny: Binary,
    f: Binary,
    no: Binary,
) -> (r: (Word, Binary, Binary))
    ensures
        r.0@ == alu_bits(x@, y@, zx, nx, zy, ny, f, no),
        r.1 == (val16(r.0@) == 0),
        r.2 == r.0@[15],
{
    let output = alu_core_built_in(x, y, zx, nx, zy, ny, f, no);
    let output1 = low_half(&output);
    let output2 = high_half(&output);
    let zr = !(or8way_built_in(output1) || or8way_built_in(output2));
    let ng = output[15];
    proof {
        lemma_val16_zero(output@);
    }
    (output, zr, ng)
}

} // verus!
