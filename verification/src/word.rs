//! A 16-bit machine word for the instruction-decoding backend, with
//! two's-complement arithmetic that wraps at 16 bits.
use vstd::prelude::*;

verus! {

/// A 16-bit value; negative numbers are two's complement.
#[derive(Clone, Debug, Copy)]
pub struct Word {
    value: u16,
}

impl Word {
    /// The unsigned value stored.
    pub closed spec fn val(self) -> u16 {
        self.value
    }

    pub fn new() -> (r: Self)
        ensures
            r.val() == 0,
    {
        Word { value: 0b0000_0000_0000_0000 }
    }

    pub fn from(value: u16) -> (r: Self)
        ensures
            r.val() == value,
    {
        Word { value }
    }

    pub fn to_u16(&self) -> (r: u16)
        ensures
            r == self.val(),
    {
        self.value
    }

    /// The word read as a signed number: values at or above 0x8000 count
    /// down from -32768.
    pub fn to_i16(&self) -> (r: i16)
        ensures
            r as int == (if self.val() < 0x8000 {
                self.val() as int
            } else {
                self.val() - 0x10000
            }),
    {
        if self.value < 0x8000 {
            self.value as i16
        } else {
            -((0xFFFF - self.value) as i16) - 1
        }
    }

    /// Bitwise complement.
    pub fn not(&self) -> (r: Self)
        ensures
            r.val() == !self.val(),
    {
        Word { value: !self.value }
    }

    /// Bitwise conjunction.
    pub fn and(&self, other: &Word) -> (r: Self)
        ensures
            r.val() == (self.val() & other.val()),
    {
        Word { value: self.value & other.value }
    }

    /// Bitwise disjunction.
    pub fn or(&self, other: &Word) -> (r: Self)
        ensures
            r.val() == (self.val() | other.val()),
    {
        Word { value: self.value | other.value }
    }

    /// Wrapping sum.
    pub fn add(&self, other: &Word) -> (r: Self)
        ensures
            r.val() == ((self.val() + other.val()) % 0x10000) as u16,
    {
        Word { value: self.value.wrapping_add(other.value) }
    }

    /// Two's-complement negation.
    pub fn minus(&self) -> (r: Self)
        ensures
            r.val() == ((0x10000 - self.val()) % 0x10000) as u16,
    {
        let r = Word { value: (!self.value).wrapping_add(0b0000_0000_0000_0001) };
        proof {
            let v = self.val();
            assert(!v == 0xFFFF - v) by (bit_vector);
        }
        r
    }

    /// Wrapping difference.
    pub fn sub(&self, other: &Word) -> (r: Self)
        ensures
            r.val() == ((self.val() + 0x10000 - other.val()) % 0x10000) as u16,
    {
        let r = self.add(&other.minus());
        proof {
            let a = self.val() as int;
            let b = other.val() as int;
            if b == 0 {
                assert((a + 0x10000) % 0x10000 == a % 0x10000) by (nonlinear_arith);
            }
        }
        r
    }
}

} // verus!
