//! Conversions between unsigned integers and the fixed-width bit buses of
//! the hardware. Every conversion is bit-exact and round-trips.
use vstd::prelude::*;

use crate::boolean_logic::Word;
use crate::model::{
    b2n, bits16, bits8, lemma_place_value, lemma_val16_of_bits16, lemma_val8_of_bits8,
    lemma_val_prefix_bound, mask16, val12, val13, val14, val15, val16, val3, val6, val9,
    val_prefix,
};

verus! {

/// Numeric value of the low `N` bits of a bus, accumulated low bit first.
fn bus_to_u16<const N: usize>(word: &[bool; N]) -> (r: u16)
    requires
        N <= 16,
    ensures
        r == val_prefix(word@, N as int),
{
    let mut n: u16 = 0;
    let mut w: u16 = 1;
    for i in 0..N
        invariant
            N <= 16,
            n == val_prefix(word@, i as int),
            i < 16 ==> w == mask16(i as int),
    {
        proof {
            lemma_val_prefix_bound(word@, i as int);
        }
        if word[i] {
            n += w;
        }
        if i + 1 < 16 {
            w *= 2;
        } else {
            w = 1;
        }
    }
    n
}



pub fn u8_to_bits(input: u8) -> (r: [bool; 8])
    ensures
        r@ == bits8(input),
        crate::model::val8(r@) == input,
{
    let bits: [bool; 8] = [
        input & 0x1 != 0,
        input & 0x2 != 0,
        input & 0x4 != 0,
        input & 0x8 != 0,
        input & 0x10 != 0,
        input & 0x20 != 0,
        input & 0x40 != 0,
        input & 0x80 != 0,
    ];
    proof {
        assert(bits@ =~= bits8(input));
        lemma_val8_of_bits8(input);
    }
    bits
}

pub fn u8_to_1bit(input: u8) -> (r: [bool; 1])
    ensures
        r@[0] == bits8(input)[0],
{
    let bits = u8_to_bits(input);
    [bits[0]]
}

pub fn u8_to_3bit(input: u8) -> (r: [bool; 3])
    ensures
        forall|i: int| 0 <= i < 3 ==> r@[i] == bits8(input)[i],
        val3(r@) == input % 8,
{
    let bits = u8_to_bits(input);
    let res = [bits[0], bits[1], bits[2]];
    proof {
        lemma_val8_of_bits8(input);
        let s = bits8(input);
        lemma_place_value(
            input as nat,
            8,
            b2n(s[3]) + 2 * b2n(s[4]) + 4 * b2n(s[5]) + 8 * b2n(s[6]) + 16 * b2n(s[7]),
            val3(res@),
        );
    }
    res
}

pub fn u8_to_6bit(input: u8) -> (r: [bool; 6])
    ensures
        forall|i: int| 0 <= i < 6 ==> r@[i] == bits8(input)[i],
        val6(r@) == input % 64,
{
    let bits = u8_to_bits(input);
    let res = [bits[0], bits[1], bits[2], bits[3], bits[4], bits[5]];
    proof {
        lemma_val8_of_bits8(input);
        let s = bits8(input);
        lemma_place_value(input as nat, 64, b2n(s[6]) + 2 * b2n(s[7]), val6(res@));
    }
    res
}

#[verifier::rlimit(100)]
pub fn u16_to_word(input: u16) -> (r: Word)
    ensures
        r@ == bits16(input),
        val16(r@) == input,
{
    let word: Word = [
        input & 0x1 != 0,
        input & 0x2 != 0,
        input & 0x4 != 0,
        input & 0x8 != 0,
        input & 0x10 != 0,
        input & 0x20 != 0,
        input & 0x40 != 0,
        input & 0x80 != 0,
        input & 0x100 != 0,
        input & 0x200 != 0,
        input & 0x400 != 0,
        input & 0x800 != 0,
        input & 0x1000 != 0,
        input & 0x2000 != 0,
        input & 0x4000 != 0,
        input & 0x8000 != 0,
    ];
    proof {
        assert(word@ =~= bits16(input));
        lemma_val16_of_bits16(input);
    }
    word
}

pub fn word_to_u16(word: Word) -> (r: u16)
    ensures
        r == val16(word@),
{
    let r = bus_to_u16(&word);
    proof {
        reveal_with_fuel(val_prefix, 17);
    }
    r
}

pub fn bit15_to_u16(word: [bool; 15]) -> (r: u16)
    ensures
        r == val15(word@),
{
    let r = bus_to_u16(&word);
    proof {
        reveal_with_fuel(val_prefix, 17);
    }
    r
}

pub fn bit14_to_u16(word: [bool; 14]) -> (r: u16)
    ensures
        r == val14(word@),
{
    let r = bus_to_u16(&word);
    proof {
        reveal_with_fuel(val_prefix, 17);
    }
    r
}

pub fn bit13_to_u16(word: [bool; 13]) -> (r: u16)
    ensures
        r == val13(word@),
{
    let r = bus_to_u16(&word);
    proof {
        reveal_with_fuel(val_prefix, 17);
    }
    r
}

pub fn bit12_to_u16(word: [bool; 12]) -> (r: u16)
    ensures
        r == val12(word@),
{
    let r = bus_to_u16(&word);
    proof {
        reveal_with_fuel(val_prefix, 17);
    }
    r
}

pub fn u16_to_9bit(input: u16) -> (r: [bool; 9])
    ensures
        forall|i: int| 0 <= i < 9 ==> r@[i] == bits16(input)[i],
        val9(r@) == input % 512,
{
    let word = u16_to_word(input);
    let res = [
        word[0],
        word[1],
        word[2],
        word[3],
        word[4],
        word[5],
        word[6],
        word[7],
        word[8],
    ];
    proof {
        let s = bits16(input);
        lemma_place_value(
            input as nat,
            512,
            b2n(s[9]) + 2 * b2n(s[10]) + 4 * b2n(s[11]) + 8 * b2n(s[12]) + 16 * b2n(s[13]) + 32
                * b2n(s[14]) + 64 * b2n(s[15]),
            val9(res@),
        );
    }
    res
}

pub fn u16_to_12bit(input: u16) -> (r: [bool; 12])
    ensures
        forall|i: int| 0 <= i < 12 ==> r@[i] == bits16(input)[i],
        val12(r@) == input % 4096,
{
    let word = u16_to_word(input);
    let res = [
        word[0],
        word[1],
        word[2],
        word[3],
        word[4],
        word[5],
        word[6],
        word[7],
        word[8],
        word[9],
        word[10],
        word[11],
    ];
    proof {
        let s = bits16(input);
        lemma_place_value(
            input as nat,
            4096,
            b2n(s[12]) + 2 * b2n(s[13]) + 4 * b2n(s[14]) + 8 * b2n(s[15]),
            val12(res@),
        );
    }
    res
}

pub fn u16_to_13bit(input: u16) -> (r: [bool; 13])
    ensures
        forall|i: int| 0 <= i < 13 ==> r@[i] == bits16(input)[i],
        val13(r@) == input % 8192,
{
    let word = u16_to_word(input);
    let res = [
        word[0],
        word[1],
        word[2],
        word[3],
        word[4],
        word[5],
        word[6],
        word[7],
        word[8],
        word[9],
        word[10],
        word[11],
        word[12],
    ];
    proof {
        let s = bits16(input);
        lemma_place_value(
            input as nat,
            8192,
            b2n(s[13]) + 2 * b2n(s[14]) + 4 * b2n(s[15]),
            val13(res@),
        );
    }
    res
}

pub fn u16_to_14bit(input: u16) -> (r: [bool; 14])
    ensures
        forall|i: int| 0 <= i < 14 ==> r@[i] == bits16(input)[i],
        val14(r@) == input % 16384,
{
    let word = u16_to_word(input);
    let res = [
        word[0],
        word[1],
        word[2],
        word[3],
        word[4],
        word[5],
        word[6],
        word[7],
        word[8],
        word[9],
        word[10],
        word[11],
        word[12],
        word[13],
    ];
    proof {
        let s = bits16(input);
        lemma_place_value(input as nat, 16384, b2n(s[14]) + 2 * b2n(s[15]), val14(res@));
    }
    res
}

pub fn bit13_to_bit12(input: [bool; 13]) -> (r: [bool; 12])
    ensures
        forall|i: int| 0 <= i < 12 ==> r@[i] == input@[i],
        val12(r@) == val13(input@) % 4096,
{
    let res = [
        input[0],
        input[1],
        input[2],
        input[3],
        input[4],
        input[5],
        input[6],
        input[7],
        input[8],
        input[9],
        input[10],
        input[11],
    ];
    proof {
        lemma_place_value(val13(input@), 4096, b2n(input@[12]), val12(res@));
    }
    res
}

pub fn bit15_to_bit14(input: [bool; 15]) -> (r: [bool; 14])
    ensures
        forall|i: int| 0 <= i < 14 ==> r@[i] == input@[i],
        val14(r@) == val15(input@) % 16384,
{
    let res = [
        input[0],
        input[1],
        input[2],
        input[3],
        input[4],
        input[5],
        input[6],
        input[7],
        input[8],
        input[9],
        input[10],
        input[11],
        input[12],
        input[13],
    ];
    proof {
        lemma_place_value(val15(input@), 16384, b2n(input@[14]), val14(res@));
    }
    res
}

pub fn bit15_to_bit13(input: [bool; 15]) -> (r: [bool; 13])
    ensures
        forall|i: int| 0 <= i < 13 ==> r@[i] == input@[i],
        val13(r@) == val15(input@) % 8192,
{
    let res = [
        input[0],
        input[1],
        input[2],
        input[3],
        input[4],
        input[5],
        input[6],
        input[7],
        input[8],
        input[9],
        input[10],
        input[11],
        input[12],
    ];
    proof {
        lemma_place_value(
            val15(input@),
            8192,
            b2n(input@[13]) + 2 * b2n(input@[14]),
            val13(res@),
        );
    }
    res
}

pub fn bit15_to_bit12(input: [bool; 15]) -> (r: [bool; 12])
    ensures
        forall|i: int| 0 <= i < 12 ==> r@[i] == input@[i],
        val12(r@) == val15(input@) % 4096,
{
    let res = [
        input[0],
        input[1],
        input[2],
        input[3],
        input[4],
        input[5],
        input[6],
        input[7],
        input[8],
        input[9],
        input[10],
        input[11],
    ];
    proof {
        lemma_place_value(
            val15(input@),
            4096,
            b2n(input@[12]) + 2 * b2n(input@[13]) + 4 * b2n(input@[14]),
            val12(res@),
        );
    }
    res
}

pub fn word_to_bit15(input: Word) -> (r: [bool; 15])
    ensures
        forall|i: int| 0 <= i < 15 ==> r@[i] == input@[i],
        val15(r@) == val16(input@) % 32768,
{
    let res = [
        input[0],
        input[1],
        input[2],
        input[3],
        input[4],
        input[5],
        input[6],
        input[7],
        input[8],
        input[9],
        input[10],
        input[11],
        input[12],
        input[13],
        input[14],
    ];
    proof {
        lemma_place_value(val16(input@), 32768, b2n(input@[15]), val15(res@));
    }
    res
}

pub fn word_to_bit13(input: Word) -> (r: [bool; 13])
    ensures
        forall|i: int| 0 <= i < 13 ==> r@[i] == input@[i],
        val13(r@) == val16(input@) % 8192,
{
    let r = bit15_to_bit13(word_to_bit15(input));
    proof {
        lemma_place_value(
            val16(input@),
            8192,
            b2n(input@[13]) + 2 * b2n(input@[14]) + 4 * b2n(input@[15]),
            val13(r@),
        );
    }
    r
}

} // verus!
