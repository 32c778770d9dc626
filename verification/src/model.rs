//! The mathematical model shared by every layer: a word is a sequence of
//! bits, least significant first, and its value is the usual binary sum.
use vstd::prelude::*;

verus! {

/// The numeric weight of one bit.
pub open spec fn b2n(b: bool) -> nat {
    if b {
        1
    } else {
        0
    }
}

/// Value of a 2-bit select bus, low bit first.
pub open spec fn val2(s: Seq<bool>) -> nat
    recommends
        s.len() == 2,
{
    b2n(s[0]) + 2 * b2n(s[1])
}

/// Value of a 3-bit select bus, low bit first.
pub open spec fn val3(s: Seq<bool>) -> nat
    recommends
        s.len() == 3,
{
    b2n(s[0]) + 2 * b2n(s[1]) + 4 * b2n(s[2])
}

/// Value of a 6-bit address, low bit first.
pub open spec fn val6(s: Seq<bool>) -> nat
    recommends
        s.len() == 6,
{
    b2n(s[0]) + 2 * b2n(s[1]) + 4 * b2n(s[2]) + 8 * b2n(s[3]) + 16 * b2n(s[4]) + 32 * b2n(s[5])
}

/// Value of a 8-bit byte, low bit first.
pub open spec fn val8(s: Seq<bool>) -> nat
    recommends
        s.len() == 8,
{
    val6(s) + 64 * b2n(s[6]) + 128 * b2n(s[7])
}

/// Value of a 9-bit address, low bit first.
pub open spec fn val9(s: Seq<bool>) -> nat
    recommends
        s.len() == 9,
{
    val8(s) + 256 * b2n(s[8])
}

/// Value of a 12-bit address, low bit first.
pub open spec fn val12(s: Seq<bool>) -> nat
    recommends
        s.len() == 12,
{
    val9(s) + 512 * b2n(s[9]) + 1024 * b2n(s[10]) + 2048 * b2n(s[11])
}

/// Value of a 13-bit address, low bit first.
pub open spec fn val13(s: Seq<bool>) -> nat
    recommends
        s.len() == 13,
{
    val12(s) + 4096 * b2n(s[12])
}

/// Value of a 14-bit address, low bit first.
pub open spec fn val14(s: Seq<bool>) -> nat
    recommends
        s.len() == 14,
{
    val13(s) + 8192 * b2n(s[13])
}

/// Value of a 15-bit address, low bit first.
pub open spec fn val15(s: Seq<bool>) -> nat
    recommends
        s.len() == 15,
{
    val14(s) + 16384 * b2n(s[14])
}

/// Value of a 16-bit word, bit 0 least significant.
pub open spec fn val16(s: Seq<bool>) -> nat
    recommends
        s.len() == 16,
{
    b2n(s[0]) + 2 * b2n(s[1]) + 4 * b2n(s[2]) + 8 * b2n(s[3]) + 16 * b2n(s[4]) + 32 * b2n(s[5])
        + 64 * b2n(s[6]) + 128 * b2n(s[7]) + 256 * b2n(s[8]) + 512 * b2n(s[9]) + 1024 * b2n(s[10])
        + 2048 * b2n(s[11]) + 4096 * b2n(s[12]) + 8192 * b2n(s[13]) + 16384 * b2n(s[14]) + 32768
        * b2n(s[15])
}

/// The power-of-two mask that singles out bit `i` of a word.
pub open spec fn mask16(i: int) -> u16
    recommends
        0 <= i < 16,
{
    if i == 0 {
        0x1
    } else if i == 1 {
        0x2
    } else if i == 2 {
        0x4
    } else if i == 3 {
        0x8
    } else if i == 4 {
        0x10
    } else if i == 5 {
        0x20
    } else if i == 6 {
        0x40
    } else if i == 7 {
        0x80
    } else if i == 8 {
        0x100
    } else if i == 9 {
        0x200
    } else if i == 10 {
        0x400
    } else if i == 11 {
        0x800
    } else if i == 12 {
        0x1000
    } else if i == 13 {
        0x2000
    } else if i == 14 {
        0x4000
    } else {
        0x8000
    }
}

/// The 16 bits of an unsigned value, least significant first.
pub open spec fn bits16(n: u16) -> Seq<bool> {
    Seq::new(16, |i: int| n & mask16(i) != 0)
}

/// The first sixteen powers of two, and 2^16 itself.
pub open spec fn pow2k(k: int) -> nat
    recommends
        0 <= k <= 16,
{
    if k <= 0 {
        1
    } else if k < 16 {
        mask16(k) as nat
    } else {
        0x10000
    }
}

/// Value of the first `k` bits of a bus, low bit first.
pub open spec fn val_prefix(s: Seq<bool>, k: int) -> nat
    recommends
        0 <= k <= s.len(),
        k <= 16,
    decreases k,
{
    if k <= 0 {
        0
    } else {
        val_prefix(s, k - 1) + pow2k(k - 1) * b2n(s[k - 1])
    }
}

/// The first `k` bits value below 2^k.
pub proof fn lemma_val_prefix_bound(s: Seq<bool>, k: int)
    requires
        0 <= k <= 16,
    ensures
        val_prefix(s, k) < pow2k(k),
    decreases k,
{
    if k > 0 {
        lemma_val_prefix_bound(s, k - 1);
    }
}

/// A bus of `n` cleared bits.
pub open spec fn zeros(n: nat) -> Seq<bool> {
    Seq::new(n, |i: int| false)
}

/// Changing a bit at or beyond `k` leaves the value of the first `k` bits alone.
pub proof fn lemma_val_prefix_update(s: Seq<bool>, j: int, v: bool, k: int)
    requires
        0 <= k <= j < s.len(),
    ensures
        val_prefix(s.update(j, v), k) == val_prefix(s, k),
    decreases k,
{
    if k > 0 {
        lemma_val_prefix_update(s, j, v, k - 1);
    }
}

/// The prefix value of a full word is the word's value.
pub proof fn lemma_val_prefix_16(s: Seq<bool>)
    requires
        s.len() == 16,
    ensures
        val_prefix(s, 16) == val16(s),
{
    reveal_with_fuel(val_prefix, 17);
}

/// A grid index splits into its row and column: `j == w * (j / w) + j % w`.
pub proof fn lemma_grid_split(j: int, w: int)
    requires
        0 <= j,
        0 < w,
    ensures
        j == w * (j / w) + j % w,
        0 <= j % w < w,
{
    vstd::arithmetic::div_mod::lemma_fundamental_div_mod(j, w);
    vstd::arithmetic::div_mod::lemma_mod_bound(j, w);
}

/// Place-value split: a number written as `r + q * d` with `r < d` has
/// remainder `r` and quotient `q` when divided by `d`.
pub proof fn lemma_place_value(x: nat, d: nat, q: nat, r: nat)
    requires
        0 < d,
        r < d,
        x == r + q * d,
    ensures
        x % d == r,
        x / d == q,
{
    vstd::arithmetic::div_mod::lemma_fundamental_div_mod_converse_mod(
        x as int,
        d as int,
        q as int,
        r as int,
    );
    vstd::arithmetic::div_mod::lemma_fundamental_div_mod_converse_div(
        x as int,
        d as int,
        q as int,
        r as int,
    );
}

/// The 8 bits of a byte, least significant first.
pub open spec fn bits8(n: u8) -> Seq<bool> {
    Seq::new(8, |i: int| n & (mask16(i) as u8) != 0)
}

/// Reading the bits of a byte gives the byte back.
pub proof fn lemma_val8_of_bits8(n: u8)
    ensures
        val8(bits8(n)) == n,
{
    assert((n & 0x1) + (n & 0x2) + (n & 0x4) + (n & 0x8) + (n & 0x10) + (n & 0x20) + (n & 0x40) + (
    n & 0x80) == n) by (bit_vector);
    assert(((n & 0x1) == 0 || (n & 0x1) == 0x1) && ((n & 0x2) == 0 || (n & 0x2) == 0x2) && ((n
        & 0x4) == 0 || (n & 0x4) == 0x4) && ((n & 0x8) == 0 || (n & 0x8) == 0x8) && ((n & 0x10)
        == 0 || (n & 0x10) == 0x10) && ((n & 0x20) == 0 || (n & 0x20) == 0x20) && ((n & 0x40) == 0
        || (n & 0x40) == 0x40) && ((n & 0x80) == 0 || (n & 0x80) == 0x80)) by (bit_vector);
}

/// A 16-bit word never values above 0xFFFF.
pub proof fn lemma_val16_bound(s: Seq<bool>)
    requires
        s.len() == 16,
    ensures
        val16(s) <= 0xFFFF,
{
}

/// Reading the bits of a value gives the value back.
#[verifier::rlimit(100)]
pub proof fn lemma_val16_of_bits16(n: u16)
    ensures
        val16(bits16(n)) == n,
{
    assert((n & 0x1) + (n & 0x2) + (n & 0x4) + (n & 0x8) + (n & 0x10) + (n & 0x20) + (n & 0x40) + (
    n & 0x80) + (n & 0x100) + (n & 0x200) + (n & 0x400) + (n & 0x800) + (n & 0x1000) + (n & 0x2000)
        + (n & 0x4000) + (n & 0x8000) == n) by (bit_vector);
    assert(((n & 0x1) == 0 || (n & 0x1) == 0x1) && ((n & 0x2) == 0 || (n & 0x2) == 0x2) && ((n
        & 0x4) == 0 || (n & 0x4) == 0x4) && ((n & 0x8) == 0 || (n & 0x8) == 0x8) && ((n & 0x10)
        == 0 || (n & 0x10) == 0x10) && ((n & 0x20) == 0 || (n & 0x20) == 0x20) && ((n & 0x40) == 0
        || (n & 0x40) == 0x40) && ((n & 0x80) == 0 || (n & 0x80) == 0x80) && ((n & 0x100) == 0 || (
    n & 0x100) == 0x100) && ((n & 0x200) == 0 || (n & 0x200) == 0x200) && ((n & 0x400) == 0 || (n
        & 0x400) == 0x400) && ((n & 0x800) == 0 || (n & 0x800) == 0x800) && ((n & 0x1000) == 0 || (
    n & 0x1000) == 0x1000) && ((n & 0x2000) == 0 || (n & 0x2000) == 0x2000) && ((n & 0x4000) == 0
        || (n & 0x4000) == 0x4000) && ((n & 0x8000) == 0 || (n & 0x8000) == 0x8000)) by (bit_vector);
}

/// A 16-bit word is recovered from its value: `val16` is injective.
#[verifier::rlimit(60)]
pub proof fn lemma_bits16_of_val16(s: Seq<bool>)
    requires
        s.len() == 16,
    ensures
        val16(s) <= 0xFFFF,
        bits16(val16(s) as u16) == s,
{
    let n: u16 = val16(s) as u16;
    let b0: u16 = b2n(s[0]) as u16;
    let b1: u16 = b2n(s[1]) as u16;
    let b2: u16 = b2n(s[2]) as u16;
    let b3: u16 = b2n(s[3]) as u16;
    let b4: u16 = b2n(s[4]) as u16;
    let b5: u16 = b2n(s[5]) as u16;
    let b6: u16 = b2n(s[6]) as u16;
    let b7: u16 = b2n(s[7]) as u16;
    let b8: u16 = b2n(s[8]) as u16;
    let b9: u16 = b2n(s[9]) as u16;
    let b10: u16 = b2n(s[10]) as u16;
    let b11: u16 = b2n(s[11]) as u16;
    let b12: u16 = b2n(s[12]) as u16;
    let b13: u16 = b2n(s[13]) as u16;
    let b14: u16 = b2n(s[14]) as u16;
    let b15: u16 = b2n(s[15]) as u16;
    assert(((n & 0x1 != 0) == (b0 == 1)) && ((n & 0x2 != 0) == (b1 == 1)) && ((n & 0x4 != 0) == (b2
        == 1)) && ((n & 0x8 != 0) == (b3 == 1)) && ((n & 0x10 != 0) == (b4 == 1)) && ((n & 0x20
        != 0) == (b5 == 1)) && ((n & 0x40 != 0) == (b6 == 1)) && ((n & 0x80 != 0) == (b7 == 1)) && (
    (n & 0x100 != 0) == (b8 == 1)) && ((n & 0x200 != 0) == (b9 == 1)) && ((n & 0x400 != 0) == (b10
        == 1)) && ((n & 0x800 != 0) == (b11 == 1)) && ((n & 0x1000 != 0) == (b12 == 1)) && ((n
        & 0x2000 != 0) == (b13 == 1)) && ((n & 0x4000 != 0) == (b14 == 1)) && ((n & 0x8000 != 0)
        == (b15 == 1))) by (bit_vector)
        requires
            b0 <= 1 && b1 <= 1 && b2 <= 1 && b3 <= 1 && b4 <= 1 && b5 <= 1 && b6 <= 1 && b7 <= 1
                && b8 <= 1 && b9 <= 1 && b10 <= 1 && b11 <= 1 && b12 <= 1 && b13 <= 1 && b14 <= 1
                && b15 <= 1,
            n == b0 + 2 * b1 + 4 * b2 + 8 * b3 + 16 * b4 + 32 * b5 + 64 * b6 + 128 * b7 + 256 * b8
                + 512 * b9 + 1024 * b10 + 2048 * b11 + 4096 * b12 + 8192 * b13 + 16384 * b14
                + 32768 * b15,
    ;
    assert(bits16(n) =~= s);
}

/// Two 16-bit words with the same value are the same word.
pub proof fn lemma_val16_injective(a: Seq<bool>, b: Seq<bool>)
    requires
        a.len() == 16,
        b.len() == 16,
        val16(a) == val16(b),
    ensures
        a == b,
{
    lemma_bits16_of_val16(a);
    lemma_bits16_of_val16(b);
}

/// A word values zero exactly when every bit is clear.
pub proof fn lemma_val16_zero(s: Seq<bool>)
    requires
        s.len() == 16,
    ensures
        (val16(s) == 0) == (forall|i: int| 0 <= i < 16 ==> !s[i]),
{
    if val16(s) == 0 {
        assert forall|i: int| 0 <= i < 16 implies !s[i] by {
            assert(b2n(s[i]) >= 0);
        }
    }
}

} // verus!
