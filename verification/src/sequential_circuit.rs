//! The clocked storage elements. A DFF holds two bits, `past` and `new`:
//! the true half-cycle shifts `new` into `past` and latches the input, the
//! false half-cycle commits nothing; readers with the clock high still see
//! the pre-tick state, so feedback loops stabilize against it.
use vstd::prelude::*;

use crate::boolean_arithmetic::inc16;
use crate::boolean_logic::{dmux4way, dmux8way, mux, mux16, mux4way16, mux8way16, Binary, Word};
use crate::helper::u16_to_word;
use crate::model::{bits16, val12, val14, val16, val2, val3, val6, val9, zeros};
use crate::helper::{bit12_to_u16, bit14_to_u16};

verus! {

/// The only unit of irreducible state: the value committed on the last
/// tick, and the value being latched for the next.
#[derive(Debug, Clone, Copy)]
pub struct DFF {
    past_bit: Binary,
    new_bit: Binary,
}

impl DFF {
    /// The bit visible while the clock is high.
    pub closed spec fn past(self) -> bool {
        self.past_bit
    }

    /// The bit visible while the clock is low, and shifted on the next tick.
    pub closed spec fn cur(self) -> bool {
        self.new_bit
    }

    pub fn new() -> (r: Self)
        ensures
            !r.past(),
            !r.cur(),
    {
        DFF { past_bit: false, new_bit: false }
    }

    pub fn update(&mut self, clk: Binary, a: Binary)
        ensures
            final(self).past() == (if clk {
                old(self).cur()
            } else {
                old(self).past()
            }),
            final(self).cur() == (if clk {
                a
            } else {
                old(self).cur()
            }),
    {
        if clk {
            self.past_bit = self.new_bit;
            self.new_bit = a;
        }
    }

    pub fn get(self, clk: Binary) -> (r: Binary)
        ensures
            r == (if clk {
                self.past()
            } else {
                self.cur()
            }),
    {
        if clk {
            self.past_bit
        } else {
            self.new_bit
        }
    }
}

/// A 1-bit latch: a DFF fed through a mux, so the stored bit re-latches
/// itself whenever `load` is low.
#[derive(Debug, Clone, Copy)]
pub struct Bit {
    dff: DFF,
}

impl Bit {
    pub closed spec fn past(self) -> bool {
        self.dff.past()
    }

    pub closed spec fn cur(self) -> bool {
        self.dff.cur()
    }

    pub fn new() -> (r: Self)
        ensures
            !r.past(),
            !r.cur(),
    {
        Bit { dff: DFF::new() }
    }

    pub fn update(&mut self, clk: Binary, input: Binary, load: Binary)
        ensures
            final(self).past() == (if clk {
                old(self).cur()
            } else {
                old(self).past()
            }),
            final(self).cur() == (if clk && load {
                input
            } else {
                old(self).cur()
            }),
    {
        let fed = mux(self.get(!clk), input, load);
        self.dff.update(clk, fed);
    }

    pub fn get(&self, clk: Binary) -> (r: Binary)
        ensures
            r == (if clk {
                self.past()
            } else {
                self.cur()
            }),
    {
        self.dff.get(clk)
    }
}

/// A 16-bit register: 16 independent Bits clocked in parallel.
#[derive(Debug, Clone, Copy)]
pub struct Register {
    bits: [Bit; 16],
}

impl Register {
    /// The word visible while the clock is high.
    pub closed spec fn past(self) -> Seq<bool> {
        Seq::new(16, |i: int| self.bits@[i].past())
    }

    /// The word visible while the clock is low.
    pub closed spec fn cur(self) -> Seq<bool> {
        Seq::new(16, |i: int| self.bits@[i].cur())
    }

    pub fn new() -> (r: Self)
        ensures
            r.past() == zeros(16),
            r.cur() == zeros(16),
    {
        let r = Register { bits: [Bit::new();16] };
        proof {
            assert(r.past() =~= zeros(16));
            assert(r.cur() =~= zeros(16));
        }
        r
    }

    pub fn update(&mut self, clk: Binary, input: Word, load: Binary)
        ensures
            final(self).past() == (if clk {
                old(self).cur()
            } else {
                old(self).past()
            }),
            final(self).cur() == (if clk && load {
                input@
            } else {
                old(self).cur()
            }),
    {
        let ghost orig = self.bits@;
        for i in 0..16
            invariant
                forall|j: int|
                    0 <= j < i ==> (#[trigger] self.bits@[j]).past() == (if clk {
                        orig[j].cur()
                    } else {
                        orig[j].past()
                    }),
                forall|j: int|
                    0 <= j < i ==> (#[trigger] self.bits@[j]).cur() == (if clk && load {
                        input@[j]
                    } else {
                        orig[j].cur()
                    }),
                forall|j: int| i <= j < 16 ==> (#[trigger] self.bits@[j]) == orig[j],
        {
            let mut cell = self.bits[i];
            cell.update(clk, input[i], load);
            self.bits[i] = cell;
        }
        proof {
            assert(final(self).past() =~= (if clk {
                old(self).cur()
            } else {
                old(self).past()
            }));
            assert(final(self).cur() =~= (if clk && load {
                input@
            } else {
                old(self).cur()
            }));
        }
    }

    pub fn get(&self, clk: Binary) -> (r: Word)
        ensures
            r@ == (if clk {
                self.past()
            } else {
                self.cur()
            }),
    {
        let mut word: Word = [false;16];
        for i in 0..16
            invariant
                forall|j: int|
                    0 <= j < i ==> word@[j] == (if clk {
                        self.past()[j]
                    } else {
                        self.cur()[j]
                    }),
        {
            word[i] = self.bits[i].get(clk);
        }
        proof {
            if clk {
                assert(word@ =~= self.past());
            } else {
                assert(word@ =~= self.cur());
            }
        }
        word
    }
}

/// Eight registers behind a 3-bit address decoder. Every register is
/// clocked on every update; the decoder gates only the load enables.
#[derive(Debug, Clone, Copy)]
pub struct RAM8 {
    registers: [Register; 8],
}

impl RAM8 {
    /// The eight stored words as committed before the current tick.
    pub closed spec fn past(self) -> Seq<Seq<bool>> {
        Seq::new(8, |i: int| self.registers@[i].past())
    }

    /// The eight stored words as they stand after the last commit.
    pub closed spec fn cur(self) -> Seq<Seq<bool>> {
        Seq::new(8, |i: int| self.registers@[i].cur())
    }

    pub fn new() -> (r: Self)
        ensures
            r.past() == Seq::new(8, |i: int| zeros(16)),
            r.cur() == Seq::new(8, |i: int| zeros(16)),
    {
        let r = RAM8 { registers: [Register::new();8] };
        proof {
            assert(r.past() =~= Seq::new(8, |i: int| zeros(16)));
            assert(r.cur() =~= Seq::new(8, |i: int| zeros(16)));
        }
        r
    }

    pub fn update(&mut self, clk: Binary, input: Word, load: Binary, address: [Binary; 3])
        ensures
            final(self).past() == (if clk {
                old(self).cur()
            } else {
                old(self).past()
            }),
            final(self).cur() == (if clk && load {
                old(self).cur().update(val3(address@) as int, input@)
            } else {
                old(self).cur()
            }),
    {
        let (a, b, c, d, e, f, g, h) = dmux8way(load, address);
        let mut r0 = self.registers[0];
        r0.update(clk, input, a);
        let mut r1 = self.registers[1];
        r1.update(clk, input, b);
        let mut r2 = self.registers[2];
        r2.update(clk, input, c);
        let mut r3 = self.registers[3];
        r3.update(clk, input, d);
        let mut r4 = self.registers[4];
        r4.update(clk, input, e);
        let mut r5 = self.registers[5];
        r5.update(clk, input, f);
        let mut r6 = self.registers[6];
        r6.update(clk, input, g);
        let mut r7 = self.registers[7];
        r7.update(clk, input, h);
        self.registers = [r0, r1, r2, r3, r4, r5, r6, r7];
        proof {
            assert(final(self).past() =~= (if clk {
                old(self).cur()
            } else {
                old(self).past()
            }));
            if clk && load {
                assert(final(self).cur() =~= old(self).cur().update(val3(address@) as int, input@));
            } else {
                assert(final(self).cur() =~= old(self).cur());
            }
        }
    }

    pub fn get(&self, clk: Binary, address: [Binary; 3]) -> (r: Word)
        ensures
            r@ == (if clk {
                self.past()
            } else {
                self.cur()
            })[val3(address@) as int],
    {
        let r = mux8way16(
            self.registers[0].get(clk),
            self.registers[1].get(clk),
            self.registers[2].get(clk),
            self.registers[3].get(clk),
            self.registers[4].get(clk),
            self.registers[5].get(clk),
            self.registers[6].get(clk),
            self.registers[7].get(clk),
            address,
        );
        r
    }
}


/// Sixty-four words: eight RAM8 children selected by the high address bits.
#[derive(Debug, Clone, Copy)]
pub struct RAM64 {
    rams: [RAM8; 8],
}

impl RAM64 {
    /// The 64 stored words as committed before the current tick.
    pub closed spec fn past(self) -> Seq<Seq<bool>> {
        Seq::new(64, |j: int| self.rams@[j / 8].past()[j % 8])
    }

    /// The 64 stored words as they stand after the last commit.
    pub closed spec fn cur(self) -> Seq<Seq<bool>> {
        Seq::new(64, |j: int| self.rams@[j / 8].cur()[j % 8])
    }

    pub fn new() -> (r: Self)
        ensures
            r.past() == Seq::new(64, |j: int| zeros(16)),
            r.cur() == Seq::new(64, |j: int| zeros(16)),
    {
        let r = RAM64 { rams: [RAM8::new();8] };
        proof {
            assert(r.past() =~= Seq::new(64, |j: int| zeros(16)));
            assert(r.cur() =~= Seq::new(64, |j: int| zeros(16)));
        }
        r
    }

    pub fn update(&mut self, clk: Binary, input: Word, load: Binary, address: [Binary; 6])
        ensures
            final(self).past() == (if clk {
                old(self).cur()
            } else {
                old(self).past()
            }),
            final(self).cur() == (if clk && load {
                old(self).cur().update(val6(address@) as int, input@)
            } else {
                old(self).cur()
            }),
    {
        let address_low = [address[0], address[1], address[2]];
        let address_high = [address[3], address[4], address[5]];
        let (a, b, c, d, e, f, g, h) = dmux8way(load, address_high);
        let mut r0 = self.rams[0];
        r0.update(clk, input, a, address_low);
        let mut r1 = self.rams[1];
        r1.update(clk, input, b, address_low);
        let mut r2 = self.rams[2];
        r2.update(clk, input, c, address_low);
        let mut r3 = self.rams[3];
        r3.update(clk, input, d, address_low);
        let mut r4 = self.rams[4];
        r4.update(clk, input, e, address_low);
        let mut r5 = self.rams[5];
        r5.update(clk, input, f, address_low);
        let mut r6 = self.rams[6];
        r6.update(clk, input, g, address_low);
        let mut r7 = self.rams[7];
        r7.update(clk, input, h, address_low);
        self.rams = [r0, r1, r2, r3, r4, r5, r6, r7];
        proof {
            let lo = val3(address_low@) as int;
            let hi = val3(address_high@) as int;
            assert(val6(address@) == lo + 8 * hi);
            assert(final(self).past() =~= (if clk {
                old(self).cur()
            } else {
                old(self).past()
            }));
            if clk && load {
                assert(final(self).cur() =~= old(self).cur().update(
                    val6(address@) as int,
                    input@,
                ));
            } else {
                assert(final(self).cur() =~= old(self).cur());
            }
        }
    }

    pub fn get(&self, clk: Binary, address: [Binary; 6]) -> (r: Word)
        ensures
            r@ == (if clk {
                self.past()
            } else {
                self.cur()
            })[val6(address@) as int],
    {
        let address_low = [address[0], address[1], address[2]];
        let address_high = [address[3], address[4], address[5]];
        let r = mux8way16(
            self.rams[0].get(clk, address_low),
            self.rams[1].get(clk, address_low),
            self.rams[2].get(clk, address_low),
            self.rams[3].get(clk, address_low),
            self.rams[4].get(clk, address_low),
            self.rams[5].get(clk, address_low),
            self.rams[6].get(clk, address_low),
            self.rams[7].get(clk, address_low),
            address_high,
        );
        proof {
            let lo = val3(address_low@) as int;
            let hi = val3(address_high@) as int;
            assert(val6(address@) == lo + 8 * hi);
        }
        r
    }
}


/// Five hundred twelve words: eight RAM64 children selected by the high address bits.
#[derive(Debug, Clone, Copy)]
pub struct RAM512 {
    rams: [RAM64; 8],
}

impl RAM512 {
    /// The 512 stored words as committed before the current tick.
    pub closed spec fn past(self) -> Seq<Seq<bool>> {
        Seq::new(512, |j: int| self.rams@[j / 64].past()[j % 64])
    }

    /// The 512 stored words as they stand after the last commit.
    pub closed spec fn cur(self) -> Seq<Seq<bool>> {
        Seq::new(512, |j: int| self.rams@[j / 64].cur()[j % 64])
    }

    pub fn new() -> (r: Self)
        ensures
            r.past() == Seq::new(512, |j: int| zeros(16)),
            r.cur() == Seq::new(512, |j: int| zeros(16)),
    {
        let r = RAM512 { rams: [RAM64::new();8] };
        proof {
            assert(r.past() =~= Seq::new(512, |j: int| zeros(16)));
            assert(r.cur() =~= Seq::new(512, |j: int| zeros(16)));
        }
        r
    }

    pub fn update(&mut self, clk: Binary, input: Word, load: Binary, address: [Binary; 9])
        ensures
            final(self).past() == (if clk {
                old(self).cur()
            } else {
                old(self).past()
            }),
            final(self).cur() == (if clk && load {
                old(self).cur().update(val9(address@) as int, input@)
            } else {
                old(self).cur()
            }),
    {
        let address_low = [address[0], address[1], address[2], address[3], address[4], address[5]];
        let address_high = [address[6], address[7], address[8]];
        let (a, b, c, d, e, f, g, h) = dmux8way(load, address_high);
        let mut r0 = self.rams[0];
        r0.update(clk, input, a, address_low);
        let mut r1 = self.rams[1];
        r1.update(clk, input, b, address_low);
        let mut r2 = self.rams[2];
        r2.update(clk, input, c, address_low);
        let mut r3 = self.rams[3];
        r3.update(clk, input, d, address_low);
        let mut r4 = self.rams[4];
        r4.update(clk, input, e, address_low);
        let mut r5 = self.rams[5];
        r5.update(clk, input, f, address_low);
        let mut r6 = self.rams[6];
        r6.update(clk, input, g, address_low);
        let mut r7 = self.rams[7];
        r7.update(clk, input, h, address_low);
        self.rams = [r0, r1, r2, r3, r4, r5, r6, r7];
        proof {
            let lo = val6(address_low@) as int;
            let hi = val3(address_high@) as int;
            assert(val9(address@) == lo + 64 * hi);
            assert(final(self).past() =~= (if clk {
                old(self).cur()
            } else {
                old(self).past()
            }));
            if clk && load {
                assert(final(self).cur() =~= old(self).cur().update(
                    val9(address@) as int,
                    input@,
                ));
            } else {
                assert(final(self).cur() =~= old(self).cur());
            }
        }
    }

    pub fn get(&self, clk: Binary, address: [Binary; 9]) -> (r: Word)
        ensures
            r@ == (if clk {
                self.past()
            } else {
                self.cur()
            })[val9(address@) as int],
    {
        let address_low = [address[0], address[1], address[2], address[3], address[4], address[5]];
        let address_high = [address[6], address[7], address[8]];
        let r = mux8way16(
            self.rams[0].get(clk, address_low),
            self.rams[1].get(clk, address_low),
            self.rams[2].get(clk, address_low),
            self.rams[3].get(clk, address_low),
            self.rams[4].get(clk, address_low),
            self.rams[5].get(clk, address_low),
            self.rams[6].get(clk, address_low),
            self.rams[7].get(clk, address_low),
            address_high,
        );
        proof {
            let lo = val6(address_low@) as int;
            let hi = val3(address_high@) as int;
            assert(val9(address@) == lo + 64 * hi);
        }
        r
    }
}


/// Four thousand ninety-six words: eight RAM512 children selected by the high address bits.
#[derive(Debug, Clone, Copy)]
pub struct RAM4K {
    rams: [RAM512; 8],
}

impl RAM4K {
    /// The 4096 stored words as committed before the current tick.
    pub closed spec fn past(self) -> Seq<Seq<bool>> {
        Seq::new(4096, |j: int| self.rams@[j / 512].past()[j % 512])
    }

    /// The 4096 stored words as they stand after the last commit.
    pub closed spec fn cur(self) -> Seq<Seq<bool>> {
        Seq::new(4096, |j: int| self.rams@[j / 512].cur()[j % 512])
    }

    pub fn new() -> (r: Self)
        ensures
            r.past() == Seq::new(4096, |j: int| zeros(16)),
            r.cur() == Seq::new(4096, |j: int| zeros(16)),
    {
        let r = RAM4K { rams: [RAM512::new();8] };
        proof {
            assert(r.past() =~= Seq::new(4096, |j: int| zeros(16)));
            assert(r.cur() =~= Seq::new(4096, |j: int| zeros(16)));
        }
        r
    }

    pub fn update(&mut self, clk: Binary, input: Word, load: Binary, address: [Binary; 12])
        ensures
            final(self).past() == (if clk {
                old(self).cur()
            } else {
                old(self).past()
            }),
            final(self).cur() == (if clk && load {
                old(self).cur().update(val12(address@) as int, input@)
            } else {
                old(self).cur()
            }),
    {
        let address_low = [address[0], address[1], address[2], address[3], address[4], address[5], address[6], address[7], address[8]];
        let address_high = [address[9], address[10], address[11]];
        let (a, b, c, d, e, f, g, h) = dmux8way(load, address_high);
        let mut r0 = self.rams[0];
        r0.update(clk, input, a, address_low);
        let mut r1 = self.rams[1];
        r1.update(clk, input, b, address_low);
        let mut r2 = self.rams[2];
        r2.update(clk, input, c, address_low);
        let mut r3 = self.rams[3];
        r3.update(clk, input, d, address_low);
        let mut r4 = self.rams[4];
        r4.update(clk, input, e, address_low);
        let mut r5 = self.rams[5];
        r5.update(clk, input, f, address_low);
        let mut r6 = self.rams[6];
        r6.update(clk, input, g, address_low);
        let mut r7 = self.rams[7];
        r7.update(clk, input, h, address_low);
        self.rams = [r0, r1, r2, r3, r4, r5, r6, r7];
        proof {
            let lo = val9(address_low@) as int;
            let hi = val3(address_high@) as int;
            assert(val12(address@) == lo + 512 * hi);
            assert(final(self).past() =~= (if clk {
                old(self).cur()
            } else {
                old(self).past()
            }));
            if clk && load {
                assert(final(self).cur() =~= old(self).cur().update(
                    val12(address@) as int,
                    input@,
                ));
            } else {
                assert(final(self).cur() =~= old(self).cur());
            }
        }
    }

    pub fn get(&self, clk: Binary, address: [Binary; 12]) -> (r: Word)
        ensures
            r@ == (if clk {
                self.past()
            } else {
                self.cur()
            })[val12(address@) as int],
    {
        let address_low = [address[0], address[1], address[2], address[3], address[4], address[5], address[6], address[7], address[8]];
        let address_high = [address[9], address[10], address[11]];
        let r = mux8way16(
            self.rams[0].get(clk, address_low),
            self.rams[1].get(clk, address_low),
            self.rams[2].get(clk, address_low),
            self.rams[3].get(clk, address_low),
            self.rams[4].get(clk, address_low),
            self.rams[5].get(clk, address_low),
            self.rams[6].get(clk, address_low),
            self.rams[7].get(clk, address_low),
            address_high,
        );
        proof {
            let lo = val9(address_low@) as int;
            let hi = val3(address_high@) as int;
            assert(val12(address@) == lo + 512 * hi);
        }
        r
    }
}


/// Sixteen thousand three hundred eighty-four words: four RAM4K children
/// selected by the top two address bits; the children live on the heap.
#[derive(Debug, Clone)]
pub struct RAM16K {
    rams: Vec<RAM4K>,
}

impl RAM16K {
    /// The backing vector holds exactly the four children.
    pub closed spec fn wf(self) -> bool {
        self.rams.len() == 4
    }

    /// The stored words as committed before the current tick.
    pub closed spec fn past(self) -> Seq<Seq<bool>> {
        Seq::new(16384, |j: int| self.rams@[j / 4096].past()[j % 4096])
    }

    /// The stored words as they stand after the last commit.
    pub closed spec fn cur(self) -> Seq<Seq<bool>> {
        Seq::new(16384, |j: int| self.rams@[j / 4096].cur()[j % 4096])
    }

    pub fn new() -> (r: Self)
        ensures
            r.wf(),
            r.past() == Seq::new(16384, |j: int| zeros(16)),
            r.cur() == Seq::new(16384, |j: int| zeros(16)),
    {
        let mut rams: Vec<RAM4K> = Vec::new();
        rams.push(RAM4K::new());
        rams.push(RAM4K::new());
        rams.push(RAM4K::new());
        rams.push(RAM4K::new());
        let r = RAM16K { rams };
        proof {
            assert(r.past() =~= Seq::new(16384, |j: int| zeros(16)));
            assert(r.cur() =~= Seq::new(16384, |j: int| zeros(16)));
        }
        r
    }

    #[verifier::rlimit(100)]
    #[verifier::spinoff_prover]
    pub fn update(&mut self, clk: Binary, input: Word, load: Binary, address: [Binary; 14])
        requires
            old(self).wf(),
        ensures
            final(self).wf(),
            final(self).past() == (if clk {
                old(self).cur()
            } else {
                old(self).past()
            }),
            final(self).cur() == (if clk && load {
                old(self).cur().update(val14(address@) as int, input@)
            } else {
                old(self).cur()
            }),
    {
        let address_low = [
            address[0],
            address[1],
            address[2],
            address[3],
            address[4],
            address[5],
            address[6],
            address[7],
            address[8],
            address[9],
            address[10],
            address[11],
        ];
        let address_high = [address[12], address[13]];
        let (a, b, c, d) = dmux4way(load, address_high);
        let mut r0 = self.rams[0];
        r0.update(clk, input, a, address_low);
        self.rams[0] = r0;
        let mut r1 = self.rams[1];
        r1.update(clk, input, b, address_low);
        self.rams[1] = r1;
        let mut r2 = self.rams[2];
        r2.update(clk, input, c, address_low);
        self.rams[2] = r2;
        let mut r3 = self.rams[3];
        r3.update(clk, input, d, address_low);
        self.rams[3] = r3;
        proof {
            let lo = val12(address_low@) as int;
            let hi = val2(address_high@) as int;
            assert(val14(address@) == lo + 4096 * hi);
            assert(final(self).past() =~= (if clk {
                old(self).cur()
            } else {
                old(self).past()
            }));
            if clk && load {
                assert(final(self).cur() =~= old(self).cur().update(
                    val14(address@) as int,
                    input@,
                ));
            } else {
                assert(final(self).cur() =~= old(self).cur());
            }
        }
    }

    #[verifier::rlimit(100)]
    pub fn get(&self, clk: Binary, address: [Binary; 14]) -> (r: Word)
        requires
            self.wf(),
        ensures
            r@ == (if clk {
                self.past()
            } else {
                self.cur()
            })[val14(address@) as int],
    {
        let address_low = [
            address[0],
            address[1],
            address[2],
            address[3],
            address[4],
            address[5],
            address[6],
            address[7],
            address[8],
            address[9],
            address[10],
            address[11],
        ];
        let address_high = [address[12], address[13]];
        let r = mux4way16(
            self.rams[0].get(clk, address_low),
            self.rams[1].get(clk, address_low),
            self.rams[2].get(clk, address_low),
            self.rams[3].get(clk, address_low),
            address_high,
        );
        proof {
            let lo = val12(address_low@) as int;
            let hi = val2(address_high@) as int;
            assert(val14(address@) == lo + 4096 * hi);
        }
        r
    }
}

/// A flat-array stand-in for RAM4K: one vector cell per word, written
/// directly on the committing half-cycle.
#[derive(Debug, Clone)]
pub struct RAM4KBuiltIn {
    ram: Vec<Word>,
}

impl RAM4KBuiltIn {
    /// The backing vector holds exactly 4096 words.
    pub closed spec fn wf(self) -> bool {
        self.ram.len() == 4096
    }

    /// The stored words.
    pub closed spec fn words(self) -> Seq<Seq<bool>> {
        Seq::new(4096, |j: int| self.ram@[j]@)
    }

    pub fn new() -> (r: Self)
        ensures
            r.wf(),
            r.words() == Seq::new(4096, |j: int| zeros(16)),
    {
        let mut ram: Vec<Word> = Vec::new();
        let zero_word = u16_to_word(0b0000_0000_0000_0000);
        proof {
            crate::model::lemma_val16_of_bits16(0);
            assert(zero_word@ =~= zeros(16));
        }
        for _i in 0..4096
            invariant
                ram@.len() == _i,
                forall|j: int| 0 <= j < _i ==> (#[trigger] ram@[j])@ == zeros(16),
        {
            ram.push(zero_word);
        }
        let r = RAM4KBuiltIn { ram };
        proof {
            assert(r.words() =~= Seq::new(4096, |j: int| zeros(16)));
        }
        r
    }

    pub fn update(&mut self, clk: Binary, input: Word, load: Binary, address: [Binary; 12])
        requires
            old(self).wf(),
        ensures
            final(self).wf(),
            final(self).words() == (if clk && load {
                old(self).words().update(val12(address@) as int, input@)
            } else {
                old(self).words()
            }),
    {
        if clk && load {
            let idx = bit12_to_u16(address);
            self.ram[idx as usize] = input;
            proof {
                assert(final(self).words() =~= old(self).words().update(
                    val12(address@) as int,
                    input@,
                ));
            }
        } else {
            proof {
                assert(final(self).words() =~= old(self).words());
            }
        }
    }

    #[verifier::rlimit(100)]
    pub fn get(&self, _clk: Binary, address: [Binary; 12]) -> (r: Word)
        requires
            self.wf(),
        ensures
            r@ == self.words()[val12(address@) as int],
    {
        let idx = bit12_to_u16(address);
        self.ram[idx as usize]
    }
}

/// A flat-array stand-in for RAM16K: one vector cell per word, written
/// directly on the committing half-cycle.
#[derive(Debug, Clone)]
pub struct RAM16KBuiltIn {
    ram: Vec<Word>,
}

impl RAM16KBuiltIn {
    /// The backing vector holds exactly 16384 words.
    pub closed spec fn wf(self) -> bool {
        self.ram.len() == 16384
    }

    /// The stored words.
    pub closed spec fn words(self) -> Seq<Seq<bool>> {
        Seq::new(16384, |j: int| self.ram@[j]@)
    }

    pub fn new() -> (r: Self)
        ensures
            r.wf(),
            r.words() == Seq::new(16384, |j: int| zeros(16)),
    {
        let mut ram: Vec<Word> = Vec::new();
        let zero_word = u16_to_word(0b0000_0000_0000_0000);
        proof {
            crate::model::lemma_val16_of_bits16(0);
            assert(zero_word@ =~= zeros(16));
        }
        for _i in 0..16384
            invariant
                ram@.len() == _i,
                forall|j: int| 0 <= j < _i ==> (#[trigger] ram@[j])@ == zeros(16),
        {
            ram.push(zero_word);
        }
        let r = RAM16KBuiltIn { ram };
        proof {
            assert(r.words() =~= Seq::new(16384, |j: int| zeros(16)));
        }
        r
    }

    #[verifier::rlimit(100)]
    #[verifier::spinoff_prover]
    pub fn update(&mut self, clk: Binary, input: Word, load: Binary, address: [Binary; 14])
        requires
            old(self).wf(),
        ensures
            final(self).wf(),
            final(self).words() == (if clk && load {
                old(self).words().update(val14(address@) as int, input@)
            } else {
                old(self).words()
            }),
    {
        if clk && load {
            let idx = bit14_to_u16(address);
            self.ram[idx as usize] = input;
            proof {
                assert(final(self).words() =~= old(self).words().update(
                    val14(address@) as int,
                    input@,
                ));
            }
        } else {
            proof {
                assert(final(self).words() =~= old(self).words());
            }
        }
    }

    #[verifier::rlimit(100)]
    pub fn get(&self, _clk: Binary, address: [Binary; 14]) -> (r: Word)
        requires
            self.wf(),
        ensures
            r@ == self.words()[val14(address@) as int],
    {
        let idx = bit14_to_u16(address);
        self.ram[idx as usize]
    }
}

/// The program counter: a register that always commits, fed with one of
/// {hold, increment, external load, zero}; reset wins over load, load over
/// increment.
#[derive(Debug, Clone, Copy)]
pub struct PC {
    counter: Register,
}

impl PC {
    pub closed spec fn past(self) -> Seq<bool> {
        self.counter.past()
    }

    pub closed spec fn cur(self) -> Seq<bool> {
        self.counter.cur()
    }

    pub fn new() -> (r: Self)
        ensures
            r.past() == zeros(16),
            r.cur() == zeros(16),
    {
        PC { counter: Register::new() }
    }

    #[verifier::rlimit(100)]
    pub fn update(&mut self, clk: Binary, input: Word, load: Binary, inc: Binary, reset: Binary)
        ensures
            final(self).past() == (if clk {
                old(self).cur()
            } else {
                old(self).past()
            }),
            final(self).cur() == (if !clk {
                old(self).cur()
            } else if reset {
                bits16(0)
            } else if load {
                input@
            } else if inc {
                bits16((((val16(old(self).cur()) + 1) % 0x10000) as u16))
            } else {
                old(self).cur()
            }),
    {
        let out0 = self.get(!clk);
        let incout = inc16(out0);
        let out1 = mux16(out0, incout, inc);
        let out2 = mux4way16(
            out1,
            input,
            u16_to_word(0b0000_0000_0000_0000),
            u16_to_word(0b0000_0000_0000_0000),
            [load, reset],
        );
        self.counter.update(clk, out2, true);
        proof {
            crate::model::lemma_val16_of_bits16(0);
            crate::model::lemma_val16_of_bits16(1);
            if clk {
                if reset {
                    assert(out2@ == bits16(0));
                } else if load {
                    assert(out2@ == input@);
                } else if inc {
                    assert(out2@ == bits16((((val16(old(self).cur()) + 1) % 0x10000) as u16)));
                } else {
                    assert(out2@ == old(self).cur());
                }
            }
        }
    }

    pub fn get(&self, clk: Binary) -> (r: Word)
        ensures
            r@ == (if clk {
                self.past()
            } else {
                self.cur()
            }),
    {
        self.counter.get(clk)
    }
}


/// The words a register shows are sixteen bits wide.
pub proof fn register_view_lens(r: Register)
    ensures
        r.cur().len() == 16,
        r.past().len() == 16,
{
}

/// A RAM8 holds eight words of sixteen bits.
pub proof fn ram8_view_lens(r: RAM8)
    ensures
        r.cur().len() == 8,
        r.past().len() == 8,
        forall|i: int| 0 <= i < 8 ==> r.cur()[i].len() == 16,
        forall|i: int| 0 <= i < 8 ==> r.past()[i].len() == 16,
{
    assert forall|i: int| 0 <= i < 8 implies r.cur()[i].len() == 16 by {
        register_view_lens(r.registers@[i]);
    }
    assert forall|i: int| 0 <= i < 8 implies r.past()[i].len() == 16 by {
        register_view_lens(r.registers@[i]);
    }
}

/// A RAM64 holds sixty-four words of sixteen bits.
pub proof fn ram64_view_lens(r: RAM64)
    ensures
        r.cur().len() == 64,
        r.past().len() == 64,
        forall|i: int| 0 <= i < 64 ==> r.cur()[i].len() == 16,
        forall|i: int| 0 <= i < 64 ==> r.past()[i].len() == 16,
{
    assert forall|i: int| 0 <= i < 64 implies r.cur()[i].len() == 16 by {
        ram8_view_lens(r.rams@[i / 8]);
    }
    assert forall|i: int| 0 <= i < 64 implies r.past()[i].len() == 16 by {
        ram8_view_lens(r.rams@[i / 8]);
    }
}

/// A RAM512 holds five hundred twelve words of sixteen bits.
pub proof fn ram512_view_lens(r: RAM512)
    ensures
        r.cur().len() == 512,
        r.past().len() == 512,
        forall|i: int| 0 <= i < 512 ==> r.cur()[i].len() == 16,
        forall|i: int| 0 <= i < 512 ==> r.past()[i].len() == 16,
{
    assert forall|i: int| 0 <= i < 512 implies r.cur()[i].len() == 16 by {
        ram64_view_lens(r.rams@[i / 64]);
    }
    assert forall|i: int| 0 <= i < 512 implies r.past()[i].len() == 16 by {
        ram64_view_lens(r.rams@[i / 64]);
    }
}

/// A RAM4K holds four thousand ninety-six words of sixteen bits.
pub proof fn ram4k_view_lens(r: RAM4K)
    ensures
        r.cur().len() == 4096,
        r.past().len() == 4096,
        forall|i: int| 0 <= i < 4096 ==> r.cur()[i].len() == 16,
        forall|i: int| 0 <= i < 4096 ==> r.past()[i].len() == 16,
{
    assert forall|i: int| 0 <= i < 4096 implies r.cur()[i].len() == 16 by {
        ram512_view_lens(r.rams@[i / 512]);
    }
    assert forall|i: int| 0 <= i < 4096 implies r.past()[i].len() == 16 by {
        ram512_view_lens(r.rams@[i / 512]);
    }
}

/// A RAM16K holds sixteen thousand three hundred eighty-four words of
/// sixteen bits.
pub proof fn ram16k_view_lens(r: RAM16K)
    ensures
        r.cur().len() == 16384,
        r.past().len() == 16384,
        forall|i: int| 0 <= i < 16384 ==> r.cur()[i].len() == 16,
        forall|i: int| 0 <= i < 16384 ==> r.past()[i].len() == 16,
{
    assert forall|i: int| 0 <= i < 16384 implies r.cur()[i].len() == 16 by {
        ram4k_view_lens(r.rams@[i / 4096]);
    }
    assert forall|i: int| 0 <= i < 16384 implies r.past()[i].len() == 16 by {
        ram4k_view_lens(r.rams@[i / 4096]);
    }
}

/// A flat RAM4K holds four thousand ninety-six words of sixteen bits.
pub proof fn ram4k_built_in_view_lens(r: RAM4KBuiltIn)
    ensures
        r.words().len() == 4096,
        forall|i: int| 0 <= i < 4096 ==> r.words()[i].len() == 16,
{
}

/// A flat RAM16K holds sixteen thousand three hundred eighty-four words
/// of sixteen bits.
pub proof fn ram16k_built_in_view_lens(r: RAM16KBuiltIn)
    ensures
        r.words().len() == 16384,
        forall|i: int| 0 <= i < 16384 ==> r.words()[i].len() == 16,
{
}

/// The program counter shows sixteen-bit words.
pub proof fn pc_view_lens(r: PC)
    ensures
        r.cur().len() == 16,
        r.past().len() == 16,
{
}

} // verus!
