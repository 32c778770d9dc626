//! The memory-mapped peripherals, the CPU, the ROM and the assembled
//! computer. Addresses 0 to 16383 reach general RAM, 16384 to 24575 the
//! screen bitmap, and 24576 the keyboard register.
use vstd::prelude::*;

use crate::boolean_arithmetic::{alu, alu_bits, alu_built_in};
use crate::boolean_logic::{
    dmux, dmux_built_in, mux16, mux16_built_in, mux4way16, mux4way16_built_in, Binary, Word,
};
use crate::helper::{
    bit13_to_bit12, bit13_to_u16, bit15_to_bit13, bit15_to_bit14, u16_to_word, word_to_bit15,
};
use crate::model::{bits16, val12, val13, val15, val16, zeros};
use crate::rom::{line_ok, LoadError};
use crate::sequential_circuit::{Register, RAM16K, RAM16KBuiltIn, RAM4K, RAM4KBuiltIn, PC};

verus! {

/// A 16-pixel brush stroke: the pixels of one screen word replaced, all
/// others kept.
pub open spec fn paint(pixels: Seq<bool>, word_addr: int, w: Seq<bool>) -> Seq<bool> {
    Seq::new(
        pixels.len(),
        |p: int|
            if 16 * word_addr <= p < 16 * word_addr + 16 {
                w[p - 16 * word_addr]
            } else {
                pixels[p]
            },
    )
}

/// The screen word starting at pixel `16 * word_addr`.
pub open spec fn word_at(pixels: Seq<bool>, word_addr: int) -> Seq<bool> {
    Seq::new(16, |n: int| pixels[16 * word_addr + n])
}

/// The words of a two-block screen RAM, as committed before the tick.
pub closed spec fn screen_past_of(rams: Seq<RAM4K>) -> Seq<Seq<bool>> {
    Seq::new(8192, |j: int| rams[j / 4096].past()[j % 4096])
}

/// The words of a two-block screen RAM, as they stand after the last commit.
pub closed spec fn screen_cur_of(rams: Seq<RAM4K>) -> Seq<Seq<bool>> {
    Seq::new(8192, |j: int| rams[j / 4096].cur()[j % 4096])
}

/// The screen: two RAM4K blocks selected by address bit 12, shadowed by a
/// flattened pixel array that commits together with the RAM.
#[derive(Debug, Clone)]
pub struct Screen {
    rams: Vec<RAM4K>,
    screen: [Binary; 131072],
}

impl Screen {
    /// The backing vector holds exactly the two blocks.
    pub closed spec fn wf(self) -> bool {
        self.rams.len() == 2
    }

    /// The 8192 stored words as committed before the current tick.
    pub closed spec fn past(self) -> Seq<Seq<bool>> {
        screen_past_of(self.rams@)
    }

    /// The 8192 stored words as they stand after the last commit.
    pub closed spec fn cur(self) -> Seq<Seq<bool>> {
        screen_cur_of(self.rams@)
    }

    /// The flattened pixel readout, 16 pixels per word, bit 0 leftmost.
    pub closed spec fn pixels(self) -> Seq<bool> {
        self.screen@
    }

    pub fn new() -> (r: Self)
        ensures
            r.wf(),
            r.past() == Seq::new(8192, |j: int| zeros(16)),
            r.cur() == Seq::new(8192, |j: int| zeros(16)),
            r.pixels() == zeros(131072),
    {
        let mut rams: Vec<RAM4K> = Vec::new();
        rams.push(RAM4K::new());
        rams.push(RAM4K::new());
        let r = Screen { rams, screen: [false;131072] };
        proof {
            assert(r.past() =~= Seq::new(8192, |j: int| zeros(16)));
            assert(r.cur() =~= Seq::new(8192, |j: int| zeros(16)));
            assert(r.pixels() =~= zeros(131072));
        }
        r
    }

    pub fn update(&mut self, clk: Binary, input: Word, load: Binary, address: [Binary; 13])
        requires
            old(self).wf(),
        ensures
            final(self).wf(),
            final(self).past() == (if clk {
                old(self).cur()
            } else {
                old(self).past()
            }),
            final(self).cur() == (if clk && load {
                old(self).cur().update(val13(address@) as int, input@)
            } else {
                old(self).cur()
            }),
            final(self).pixels() == (if clk && load {
                paint(old(self).pixels(), val13(address@) as int, input@)
            } else {
                old(self).pixels()
            }),
    {
        let (a, b) = dmux(load, address[12]);
        let address_low = bit13_to_bit12(address);
        let mut r0 = self.rams[0];
        r0.update(clk, input, a, address_low);
        self.rams[0] = r0;
        let mut r1 = self.rams[1];
        r1.update(clk, input, b, address_low);
        self.rams[1] = r1;
        let ghost mid_rams = self.rams@;
        proof {
            crate::sequential_circuit::ram4k_view_lens(old(self).rams@[0]);
            crate::sequential_circuit::ram4k_view_lens(old(self).rams@[1]);
            crate::sequential_circuit::ram4k_view_lens(r0);
            crate::sequential_circuit::ram4k_view_lens(r1);
            let lo = val12(address_low@) as int;
            let hi = crate::model::b2n(address@[12]) as int;
            assert(val13(address@) == lo + 4096 * hi);
            crate::model::lemma_place_value(
                val13(address@),
                4096,
                crate::model::b2n(address@[12]),
                val12(address_low@),
            );
            assert(screen_past_of(mid_rams) =~= (if clk {
                old(self).cur()
            } else {
                old(self).past()
            }));
            if clk && load {
                let wa = val13(address@) as int;
                assert forall|j: int| 0 <= j < 8192 implies screen_cur_of(mid_rams)[j] == old(
                    self,
                ).cur().update(wa, input@)[j] by {
                    crate::model::lemma_grid_split(j, 4096);
                    let k = j / 4096;
                    let s = j % 4096;
                    assert(mid_rams[0] == r0 && mid_rams[1] == r1);
                    assert(screen_cur_of(mid_rams)[j] == mid_rams[k].cur()[s]);
                    assert(old(self).cur()[j] == old(self).rams@[k].cur()[s]);
                    if address@[12] {
                        assert(hi == 1);
                        assert(r1.cur() == old(self).rams@[1].cur().update(lo, input@));
                        assert(r0.cur() == old(self).rams@[0].cur());
                    } else {
                        assert(hi == 0);
                        assert(r0.cur() == old(self).rams@[0].cur().update(lo, input@));
                        assert(r1.cur() == old(self).rams@[1].cur());
                    }
                    if j == wa {
                        assert(k == hi && s == lo);
                        if address@[12] {
                            assert(r1.cur()[s] == input@);
                            assert(mid_rams[k] == r1);
                        } else {
                            assert(r0.cur()[s] == input@);
                            assert(mid_rams[k] == r0);
                        }
                        assert(mid_rams[k].cur()[s] == input@);
                    } else if k == hi {
                        assert(s != lo);
                        assert(mid_rams[k].cur()[s] == old(self).rams@[k].cur()[s]);
                    } else {
                        assert(mid_rams[k].cur() == old(self).rams@[k].cur());
                    }
                }
                assert(screen_cur_of(mid_rams) =~= old(self).cur().update(
                    val13(address@) as int,
                    input@,
                ));
            } else {
                assert(screen_cur_of(mid_rams) =~= old(self).cur());
            }
        }
        if clk && load {
            let address_num = bit13_to_u16(address);
            let base: usize = 16 * (address_num as usize);
            let ghost wa = val13(address@) as int;
            for n in 0..16
                invariant
                    self.rams@ == mid_rams,
                    base == 16 * wa,
                    0 <= wa < 8192,
                    forall|p: int|
                        0 <= p < 131072 ==> (#[trigger] self.screen@[p]) == (if base <= p < base
                            + n {
                            input@[p - base]
                        } else {
                            old(self).screen@[p]
                        }),
            {
                self.screen[base + n] = input[n];
            }
            proof {
                assert(self.pixels() =~= paint(old(self).pixels(), val13(address@) as int, input@));
            }
        }
    }

    pub fn get(&self, clk: Binary, address: [Binary; 13]) -> (r: Word)
        requires
            self.wf(),
        ensures
            r@ == (if clk {
                self.past()
            } else {
                self.cur()
            })[val13(address@) as int],
    {
        let address_low = bit13_to_bit12(address);
        let r = mux16(
            self.rams[0].get(clk, address_low),
            self.rams[1].get(clk, address_low),
            address[12],
        );
        proof {
            let lo = val12(address_low@) as int;
            let hi = crate::model::b2n(address@[12]) as int;
            assert(val13(address@) == lo + 4096 * hi);
            crate::model::lemma_place_value(
                val13(address@),
                4096,
                crate::model::b2n(address@[12]),
                val12(address_low@),
            );
        }
        r
    }

    pub fn get_all(&self) -> (r: [Binary; 131072])
        ensures
            r@ == self.pixels(),
    {
        self.screen
    }
}

/// A flat-array stand-in for the screen: only the pixel array is stored.
#[derive(Clone, Copy)]
pub struct ScreenBuiltIn {
    screen: [Binary; 131072],
}

impl ScreenBuiltIn {
    /// The flattened pixel readout.
    pub closed spec fn pixels(self) -> Seq<bool> {
        self.screen@
    }

    pub fn new() -> (r: Self)
        ensures
            r.pixels() == zeros(131072),
    {
        let r = ScreenBuiltIn { screen: [false;131072] };
        proof {
            assert(r.pixels() =~= zeros(131072));
        }
        r
    }

    pub fn update(&mut self, clk: Binary, input: Word, load: Binary, address: [Binary; 13])
        ensures
            final(self).pixels() == (if clk && load {
                paint(old(self).pixels(), val13(address@) as int, input@)
            } else {
                old(self).pixels()
            }),
    {
        if clk && load {
            let address_num = bit13_to_u16(address);
            let base: usize = 16 * (address_num as usize);
            let ghost wa = val13(address@) as int;
            for n in 0..16
                invariant
                    base == 16 * wa,
                    0 <= wa < 8192,
                    forall|p: int|
                        0 <= p < 131072 ==> (#[trigger] self.screen@[p]) == (if base <= p < base
                            + n {
                            input@[p - base]
                        } else {
                            old(self).screen@[p]
                        }),
            {
                self.screen[base + n] = input[n];
            }
            proof {
                assert(self.pixels() =~= paint(old(self).pixels(), val13(address@) as int, input@));
            }
        }
    }

    pub fn get(&self, _clk: Binary, address: [Binary; 13]) -> (r: Word)
        ensures
            r@ == word_at(self.pixels(), val13(address@) as int),
    {
        let address_num = bit13_to_u16(address);
        let base: usize = 16 * (address_num as usize);
        let mut word: Word = [false;16];
        let ghost wa = val13(address@) as int;
        for n in 0..16
            invariant
                base == 16 * wa,
                0 <= wa < 8192,
                forall|j: int| 0 <= j < n ==> (#[trigger] word@[j]) == self.screen@[base + j],
        {
            word[n] = self.screen[base + n];
        }
        proof {
            assert(word@ =~= word_at(self.pixels(), val13(address@) as int));
        }
        word
    }

    pub fn get_all(&self) -> (r: [Binary; 131072])
        ensures
            r@ == self.pixels(),
    {
        self.screen
    }
}

/// The keyboard register: rewritten from the current key code on every
/// committing half-cycle, never address-gated.
#[derive(Debug, Clone, Copy)]
pub struct Keyboard {
    key_code: Register,
}

impl Keyboard {
    /// The key code visible while the clock is high.
    pub closed spec fn past(self) -> Seq<bool> {
        self.key_code.past()
    }

    /// The key code visible while the clock is low.
    pub closed spec fn cur(self) -> Seq<bool> {
        self.key_code.cur()
    }

    pub fn new() -> (r: Self)
        ensures
            r.past() == zeros(16),
            r.cur() == zeros(16),
    {
        Keyboard { key_code: Register::new() }
    }

    pub fn update(&mut self, clk: Binary, key_code: Word)
        ensures
            final(self).past() == (if clk {
                old(self).cur()
            } else {
                old(self).past()
            }),
            final(self).cur() == (if clk {
                key_code@
            } else {
                old(self).cur()
            }),
    {
        self.key_code.update(clk, key_code, true);
    }

    pub fn get(&self, clk: Binary) -> (r: Word)
        ensures
            r@ == (if clk {
                self.past()
            } else {
                self.cur()
            }),
    {
        self.key_code.get(clk)
    }
}

/// A flat stand-in for the keyboard: the word itself, rewritten on every
/// update whatever the clock phase.
#[derive(Debug, Clone, Copy)]
pub struct KeyboardBuiltIn {
    key_code: Word,
}

impl KeyboardBuiltIn {
    /// The stored key code.
    pub closed spec fn cur(self) -> Seq<bool> {
        self.key_code@
    }

    pub fn new() -> (r: Self)
        ensures
            r.cur() == zeros(16),
    {
        let r = KeyboardBuiltIn { key_code: u16_to_word(0b0000000000000000) };
        proof {
            crate::model::lemma_val16_of_bits16(0);
            assert(r.cur() =~= zeros(16));
        }
        r
    }

    pub fn update(&mut self, _clk: Binary, key_code: Word)
        ensures
            final(self).cur() == key_code@,
    {
        self.key_code = key_code;
    }

    pub fn get(&self, _clk: Binary) -> (r: Word)
        ensures
            r@ == self.cur(),
    {
        self.key_code
    }
}


/// The word a memory read yields, given the three mapped regions and the
/// top two address bits: bit 14 clear reaches RAM, bit 14 set with bit 13
/// clear the screen, both set the keyboard.
pub open spec fn mem_select(
    ram_word: Seq<bool>,
    screen_word: Seq<bool>,
    kb_word: Seq<bool>,
    a13: bool,
    a14: bool,
) -> Seq<bool> {
    if !a14 {
        ram_word
    } else if !a13 {
        screen_word
    } else {
        kb_word
    }
}

/// The addressable memory: general RAM, the screen bitmap and the keyboard
/// register, routed by the top address bits. The keyboard is rewritten from
/// the current key code on every tick, whatever the address.
#[derive(Clone)]
pub struct Memory {
    ram: RAM16K,
    screen: Screen,
    keyboard: Keyboard,
}

impl Memory {
    /// Both nested vectors hold their fixed child counts.
    pub closed spec fn wf(self) -> bool {
        self.ram.wf() && self.screen.wf()
    }

    /// General RAM before the tick.
    pub closed spec fn ram_past(self) -> Seq<Seq<bool>> {
        self.ram.past()
    }

    /// General RAM after the last commit.
    pub closed spec fn ram_cur(self) -> Seq<Seq<bool>> {
        self.ram.cur()
    }

    /// Screen words before the tick.
    pub closed spec fn screen_past(self) -> Seq<Seq<bool>> {
        self.screen.past()
    }

    /// Screen words after the last commit.
    pub closed spec fn screen_cur(self) -> Seq<Seq<bool>> {
        self.screen.cur()
    }

    /// The flattened pixel readout.
    pub closed spec fn pixels(self) -> Seq<bool> {
        self.screen.pixels()
    }

    /// The keyboard word before the tick.
    pub closed spec fn kb_past(self) -> Seq<bool> {
        self.keyboard.past()
    }

    /// The keyboard word after the last commit.
    pub closed spec fn kb_cur(self) -> Seq<bool> {
        self.keyboard.cur()
    }

    pub fn new() -> (r: Self)
        ensures
            r.wf(),
            r.ram_past() == Seq::new(16384, |j: int| zeros(16)),
            r.ram_cur() == Seq::new(16384, |j: int| zeros(16)),
            r.screen_past() == Seq::new(8192, |j: int| zeros(16)),
            r.screen_cur() == Seq::new(8192, |j: int| zeros(16)),
            r.pixels() == zeros(131072),
            r.kb_past() == zeros(16),
            r.kb_cur() == zeros(16),
    {
        Memory { ram: RAM16K::new(), screen: Screen::new(), keyboard: Keyboard::new() }
    }

    pub fn update(
        &mut self,
        clk: Binary,
        input: Word,
        load: Binary,
        address: [Binary; 15],
        key_code: Word,
    )
        requires
            old(self).wf(),
        ensures
            final(self).wf(),
            final(self).ram_past() == (if clk {
                old(self).ram_cur()
            } else {
                old(self).ram_past()
            }),
            final(self).ram_cur() == (if clk && load && !address@[14] {
                old(self).ram_cur().update((val15(address@) % 16384) as int, input@)
            } else {
                old(self).ram_cur()
            }),
            final(self).screen_past() == (if clk {
                old(self).screen_cur()
            } else {
                old(self).screen_past()
            }),
            final(self).screen_cur() == (if clk && load && address@[14] && !address@[13] {
                old(self).screen_cur().update((val15(address@) % 8192) as int, input@)
            } else {
                old(self).screen_cur()
            }),
            final(self).pixels() == (if clk && load && address@[14] && !address@[13] {
                paint(old(self).pixels(), (val15(address@) % 8192) as int, input@)
            } else {
                old(self).pixels()
            }),
            final(self).kb_past() == (if clk {
                old(self).kb_cur()
            } else {
                old(self).kb_past()
            }),
            final(self).kb_cur() == (if clk {
                key_code@
            } else {
                old(self).kb_cur()
            }),
    {
        let (ram_load, screen_side) = dmux(load, address[14]);
        let (screen_load, _kbd_side) = dmux(screen_side, address[13]);
        self.ram.update(clk, input, ram_load, bit15_to_bit14(address));
        self.screen.update(clk, input, screen_load, bit15_to_bit13(address));
        self.keyboard.update(clk, key_code);
    }

    pub fn get(&self, clk: Binary, address: [Binary; 15]) -> (r: Word)
        requires
            self.wf(),
        ensures
            r@ == mem_select(
                (if clk {
                    self.ram_past()
                } else {
                    self.ram_cur()
                })[(val15(address@) % 16384) as int],
                (if clk {
                    self.screen_past()
                } else {
                    self.screen_cur()
                })[(val15(address@) % 8192) as int],
                (if clk {
                    self.kb_past()
                } else {
                    self.kb_cur()
                }),
                address@[13],
                address@[14],
            ),
    {
        let ram_output = self.ram.get(clk, bit15_to_bit14(address));
        let screen_output = self.screen.get(clk, bit15_to_bit13(address));
        let keyboard_output = self.keyboard.get(clk);
        mux4way16(ram_output, ram_output, screen_output, keyboard_output, [address[13], address[14]])
    }

    pub fn get_screen(&self) -> (r: [Binary; 131072])
        ensures
            r@ == self.pixels(),
    {
        self.screen.get_all()
    }
}

/// The flat-array counterpart of the memory: same routing, flat storage.
#[derive(Clone)]
pub struct MemoryBuiltIn {
    ram: RAM16KBuiltIn,
    screen: ScreenBuiltIn,
    keyboard: KeyboardBuiltIn,
}

impl MemoryBuiltIn {
    /// The backing vector holds its fixed word count.
    pub closed spec fn wf(self) -> bool {
        self.ram.wf()
    }

    /// General RAM contents.
    pub closed spec fn ram_cur(self) -> Seq<Seq<bool>> {
        self.ram.words()
    }

    /// The flattened pixel readout.
    pub closed spec fn pixels(self) -> Seq<bool> {
        self.screen.pixels()
    }

    /// The keyboard word.
    pub closed spec fn kb_cur(self) -> Seq<bool> {
        self.keyboard.cur()
    }

    pub fn new() -> (r: Self)
        ensures
            r.wf(),
            r.ram_cur() == Seq::new(16384, |j: int| zeros(16)),
            r.pixels() == zeros(131072),
            r.kb_cur() == zeros(16),
    {
        MemoryBuiltIn {
            ram: RAM16KBuiltIn::new(),
            screen: ScreenBuiltIn::new(),
            keyboard: KeyboardBuiltIn::new(),
        }
    }

    pub fn update(
        &mut self,
        clk: Binary,
        input: Word,
        load: Binary,
        address: [Binary; 15],
        key_code: Word,
    )
        requires
            old(self).wf(),
        ensures
            final(self).wf(),
            final(self).ram_cur() == (if clk && load && !address@[14] {
                old(self).ram_cur().update((val15(address@) % 16384) as int, input@)
            } else {
                old(self).ram_cur()
            }),
            final(self).pixels() == (if clk && load && address@[14] && !address@[13] {
                paint(old(self).pixels(), (val15(address@) % 8192) as int, input@)
            } else {
                old(self).pixels()
            }),
            final(self).kb_cur() == key_code@,
    {
        let (ram_load, screen_side) = dmux_built_in(load, address[14]);
        let (screen_load, _kbd_side) = dmux_built_in(screen_side, address[13]);
        self.ram.update(clk, input, ram_load, bit15_to_bit14(address));
        self.screen.update(clk, input, screen_load, bit15_to_bit13(address));
        self.keyboard.update(clk, key_code);
    }

    pub fn get(&self, clk: Binary, address: [Binary; 15]) -> (r: Word)
        requires
            self.wf(),
        ensures
            r@ == mem_select(
                self.ram_cur()[(val15(address@) % 16384) as int],
                word_at(self.pixels(), (val15(address@) % 8192) as int),
                self.kb_cur(),
                address@[13],
                address@[14],
            ),
    {
        let ram_output = self.ram.get(clk, bit15_to_bit14(address));
        let screen_output = self.screen.get(clk, bit15_to_bit13(address));
        let keyboard_output = self.keyboard.get(clk);
        mux4way16_built_in(
            ram_output,
            ram_output,
            screen_output,
            keyboard_output,
            [address[13], address[14]],
        )
    }

    pub fn get_screen(&self) -> (r: [Binary; 131072])
        ensures
            r@ == self.pixels(),
    {
        self.screen.get_all()
    }
}


/// The ALU word a C-instruction computes: x is D, y is A or the fetched
/// memory word by instruction bit 12, and bits 11..6 drive the ALU.
pub open spec fn cpu_comp(i: Seq<bool>, a: Seq<bool>, d: Seq<bool>, m: Seq<bool>) -> Seq<bool> {
    alu_bits(
        d,
        if i[12] {
            m
        } else {
            a
        },
        i[11],
        i[10],
        i[9],
        i[8],
        i[7],
        i[6],
    )
}

/// Whether the jump fires: bit 2 tests negative, bit 1 zero, bit 0
/// positive; any enabled matching condition jumps, and only
/// C-instructions jump at all.
pub open spec fn cpu_jump(i: Seq<bool>, comp: Seq<bool>) -> bool {
    i[15] && ((i[2] && comp[15]) || (i[1] && val16(comp) == 0) || (i[0] && !(val16(comp) == 0)
        && !comp[15]))
}

/// The word loaded into A: the literal for an A-instruction, the ALU
/// result for a C-instruction.
pub open spec fn cpu_in_a(i: Seq<bool>, comp: Seq<bool>) -> Seq<bool> {
    if i[15] {
        comp
    } else {
        i
    }
}

/// The CPU: A and D registers, the program counter, and the latched
/// memory-write outputs, all driven by one decoded instruction word per
/// half-cycle.
#[derive(Debug, Clone, Copy)]
pub struct CPU {
    pub a_register: Register,
    pub d_register: Register,
    pub out_m: Word,
    pub write_m: Binary,
    pub pc: PC,
}

impl CPU {
    /// The A register before the tick.
    pub closed spec fn a_past(self) -> Seq<bool> {
        self.a_register.past()
    }

    /// The A register after the last commit.
    pub closed spec fn a_cur(self) -> Seq<bool> {
        self.a_register.cur()
    }

    /// The D register before the tick.
    pub closed spec fn d_past(self) -> Seq<bool> {
        self.d_register.past()
    }

    /// The D register after the last commit.
    pub closed spec fn d_cur(self) -> Seq<bool> {
        self.d_register.cur()
    }

    /// The program counter before the tick.
    pub closed spec fn pc_past(self) -> Seq<bool> {
        self.pc.past()
    }

    /// The program counter after the last commit.
    pub closed spec fn pc_cur(self) -> Seq<bool> {
        self.pc.cur()
    }

    /// The latched ALU output bound for memory.
    pub closed spec fn outm(self) -> Seq<bool> {
        self.out_m@
    }

    /// The latched memory write enable.
    pub closed spec fn wm(self) -> bool {
        self.write_m
    }

    pub fn new() -> (r: Self)
        ensures
            r.a_past() == zeros(16),
            r.a_cur() == zeros(16),
            r.d_past() == zeros(16),
            r.d_cur() == zeros(16),
            r.pc_past() == zeros(16),
            r.pc_cur() == zeros(16),
            r.outm() == zeros(16),
            !r.wm(),
    {
        let r = CPU {
            a_register: Register::new(),
            d_register: Register::new(),
            out_m: [false;16],
            write_m: false,
            pc: PC::new(),
        };
        proof {
            assert(r.outm() =~= zeros(16));
        }
        r
    }

    pub fn update(&mut self, clk: Binary, in_m: Word, instruction: Word, reset: Binary)
        ensures
            final(self).outm() == cpu_comp(instruction@, old(self).a_cur(), old(self).d_cur(), in_m@),
            final(self).wm() == (instruction@[15] && instruction@[3]),
            final(self).a_past() == (if clk {
                old(self).a_cur()
            } else {
                old(self).a_past()
            }),
            final(self).a_cur() == (if clk && (!instruction@[15] || instruction@[5]) {
                cpu_in_a(
                    instruction@,
                    cpu_comp(instruction@, old(self).a_cur(), old(self).d_cur(), in_m@),
                )
            } else {
                old(self).a_cur()
            }),
            final(self).d_past() == (if clk {
                old(self).d_cur()
            } else {
                old(self).d_past()
            }),
            final(self).d_cur() == (if clk && instruction@[15] && instruction@[4] {
                cpu_comp(instruction@, old(self).a_cur(), old(self).d_cur(), in_m@)
            } else {
                old(self).d_cur()
            }),
            final(self).pc_past() == (if clk {
                old(self).pc_cur()
            } else {
                old(self).pc_past()
            }),
            final(self).pc_cur() == (if !clk {
                old(self).pc_cur()
            } else if reset {
                bits16(0)
            } else if cpu_jump(
                instruction@,
                cpu_comp(instruction@, old(self).a_cur(), old(self).d_cur(), in_m@),
            ) {
                old(self).a_cur()
            } else {
                bits16((((val16(old(self).pc_cur()) + 1) % 0x10000) as u16))
            }),
    {
        self.write_m = crate::boolean_logic::and(instruction[15], instruction[3]);

        let out_d = self.d_register.get(false);
        let out_a = self.a_register.get(false);
        let out_a_or_m = mux16(out_a, in_m, instruction[12]);
        let (out_m, out_zr, out_ng) = alu(
            out_d,
            out_a_or_m,
            instruction[11],
            instruction[10],
            instruction[9],
            instruction[8],
            instruction[7],
            instruction[6],
        );
        self.out_m = out_m;

        let in_a = mux16(instruction, out_m, instruction[15]);
        let not15 = crate::boolean_logic::not(instruction[15]);
        let write_a = crate::boolean_logic::or(not15, instruction[5]);
        self.a_register.update(clk, in_a, write_a);

        let write_d = crate::boolean_logic::and(instruction[15], instruction[4]);
        self.d_register.update(clk, out_m, write_d);

        let w0 = crate::boolean_logic::and(instruction[2], out_ng);
        let w1 = crate::boolean_logic::and(instruction[1], out_zr);
        let out_zr_or_ng = crate::boolean_logic::or(out_zr, out_ng);
        let out_pg = crate::boolean_logic::not(out_zr_or_ng);
        let w2 = crate::boolean_logic::and(instruction[0], out_pg);
        let w3 = crate::boolean_logic::or(w0, w1);
        let out_jump = crate::boolean_logic::or(w3, w2);
        let write_pc = crate::boolean_logic::and(instruction[15], out_jump);
        self.pc.update(clk, out_a, write_pc, true, reset);
    }

    pub fn get(&self, clk: Binary) -> (r: (Word, Binary, Word, [Binary; 15]))
        ensures
            r.0@ == self.outm(),
            r.1 == self.wm(),
            r.2@ == (if clk {
                self.pc_past()
            } else {
                self.pc_cur()
            }),
            forall|k: int|
                0 <= k < 15 ==> r.3@[k] == (if clk {
                    self.a_past()
                } else {
                    self.a_cur()
                })[k],
            val15(r.3@) == val16(
                (if clk {
                    self.a_past()
                } else {
                    self.a_cur()
                }),
            ) % 32768,
    {
        let pc = self.pc.get(clk);
        let out_a = self.a_register.get(clk);
        let address_m = word_to_bit15(out_a);
        (self.out_m, self.write_m, pc, address_m)
    }
}

/// The CPU over native-operator gates; the contract is the same.
#[derive(Debug, Clone, Copy)]
pub struct CPUBuiltIn {
    pub a_register: Register,
    pub d_register: Register,
    pub out_m: Word,
    pub write_m: Binary,
    pub pc: PC,
}

impl CPUBuiltIn {
    /// The A register before the tick.
    pub closed spec fn a_past(self) -> Seq<bool> {
        self.a_register.past()
    }

    /// The A register after the last commit.
    pub closed spec fn a_cur(self) -> Seq<bool> {
        self.a_register.cur()
    }

    /// The D register before the tick.
    pub closed spec fn d_past(self) -> Seq<bool> {
        self.d_register.past()
    }

    /// The D register after the last commit.
    pub closed spec fn d_cur(self) -> Seq<bool> {
        self.d_register.cur()
    }

    /// The program counter before the tick.
    pub closed spec fn pc_past(self) -> Seq<bool> {
        self.pc.past()
    }

    /// The program counter after the last commit.
    pub closed spec fn pc_cur(self) -> Seq<bool> {
        self.pc.cur()
    }

    /// The latched ALU output bound for memory.
    pub closed spec fn outm(self) -> Seq<bool> {
        self.out_m@
    }

    /// The latched memory write enable.
    pub closed spec fn wm(self) -> bool {
        self.write_m
    }

    pub fn new() -> (r: Self)
        ensures
            r.a_past() == zeros(16),
            r.a_cur() == zeros(16),
            r.d_past() == zeros(16),
            r.d_cur() == zeros(16),
            r.pc_past() == zeros(16),
            r.pc_cur() == zeros(16),
            r.outm() == zeros(16),
            !r.wm(),
    {
        let r = CPUBuiltIn {
            a_register: Register::new(),
            d_register: Register::new(),
            out_m: [false;16],
            write_m: false,
            pc: PC::new(),
        };
        proof {
            assert(r.outm() =~= zeros(16));
        }
        r
    }

    pub fn update(&mut self, clk: Binary, in_m: Word, instruction: Word, reset: Binary)
        ensures
            final(self).outm() == cpu_comp(instruction@, old(self).a_cur(), old(self).d_cur(), in_m@),
            final(self).wm() == (instruction@[15] && instruction@[3]),
            final(self).a_past() == (if clk {
                old(self).a_cur()
            } else {
                old(self).a_past()
            }),
            final(self).a_cur() == (if clk && (!instruction@[15] || instruction@[5]) {
                cpu_in_a(
                    instruction@,
                    cpu_comp(instruction@, old(self).a_cur(), old(self).d_cur(), in_m@),
                )
            } else {
                old(self).a_cur()
            }),
            final(self).d_past() == (if clk {
                old(self).d_cur()
            } else {
                old(self).d_past()
            }),
            final(self).d_cur() == (if clk && instruction@[15] && instruction@[4] {
                cpu_comp(instruction@, old(self).a_cur(), old(self).d_cur(), in_m@)
            } else {
                old(self).d_cur()
            }),
            final(self).pc_past() == (if clk {
                old(self).pc_cur()
            } else {
                old(self).pc_past()
            }),
            final(self).pc_cur() == (if !clk {
                old(self).pc_cur()
            } else if reset {
                bits16(0)
            } else if cpu_jump(
                instruction@,
                cpu_comp(instruction@, old(self).a_cur(), old(self).d_cur(), in_m@),
            ) {
                old(self).a_cur()
            } else {
                bits16((((val16(old(self).pc_cur()) + 1) % 0x10000) as u16))
            }),
    {
        self.write_m = instruction[15] && instruction[3];

        let out_d = self.d_register.get(false);
        let out_a = self.a_register.get(false);
        let out_a_or_m = mux16_built_in(out_a, in_m, instruction[12]);
        let (out_m, out_zr, out_ng) = alu_built_in(
            out_d,
            out_a_or_m,
            instruction[11],
            instruction[10],
            instruction[9],
            instruction[8],
            instruction[7],
            instruction[6],
        );
        self.out_m = out_m;

        let in_a = mux16_built_in(instruction, out_m, instruction[15]);
        let not15 = !instruction[15];
        let write_a = not15 || instruction[5];
        self.a_register.update(clk, in_a, write_a);

        let write_d = instruction[15] && instruction[4];
        self.d_register.update(clk, out_m, write_d);

        let w0 = instruction[2] && out_ng;
        let w1 = instruction[1] && out_zr;
        let out_zr_or_ng = out_zr || out_ng;
        let out_pg = !out_zr_or_ng;
        let w2 = instruction[0] && out_pg;
        let w3 = w0 || w1;
        let out_jump = w3 || w2;
        let write_pc = instruction[15] && out_jump;
        self.pc.update(clk, out_a, write_pc, true, reset);
    }

    pub fn get(&self, clk: Binary) -> (r: (Word, Binary, Word, [Binary; 15]))
        ensures
            r.0@ == self.outm(),
            r.1 == self.wm(),
            r.2@ == (if clk {
                self.pc_past()
            } else {
                self.pc_cur()
            }),
            forall|k: int|
                0 <= k < 15 ==> r.3@[k] == (if clk {
                    self.a_past()
                } else {
                    self.a_cur()
                })[k],
            val15(r.3@) == val16(
                (if clk {
                    self.a_past()
                } else {
                    self.a_cur()
                }),
            ) % 32768,
    {
        let pc = self.pc.get(clk);
        let out_a = self.a_register.get(clk);
        let address_m = word_to_bit15(out_a);
        (self.out_m, self.write_m, pc, address_m)
    }
}



/// Everything one half-cycle of the machine can observe or change: the
/// ROM, the CPU registers and latches, the memory regions, and the two
/// feedback wires that thread the fetched instruction and memory word
/// from one half-cycle to the next.
pub ghost struct ComputerView {
    pub rom_past: Seq<Seq<bool>>,
    pub rom_cur: Seq<Seq<bool>>,
    pub a_past: Seq<bool>,
    pub a_cur: Seq<bool>,
    pub d_past: Seq<bool>,
    pub d_cur: Seq<bool>,
    pub pc_past: Seq<bool>,
    pub pc_cur: Seq<bool>,
    pub out_m: Seq<bool>,
    pub write_m: bool,
    pub ram_past: Seq<Seq<bool>>,
    pub ram_cur: Seq<Seq<bool>>,
    pub screen_past: Seq<Seq<bool>>,
    pub screen_cur: Seq<Seq<bool>>,
    pub pixels: Seq<bool>,
    pub kb_past: Seq<bool>,
    pub kb_cur: Seq<bool>,
    pub in_m: Seq<bool>,
    pub pc_address: Seq<bool>,
}

/// One half-cycle of the whole machine: fetch at the latched program
/// counter address, run the CPU against the latched memory word, route
/// the write, and re-latch the feedback wires.
pub open spec fn computer_phase(
    v: ComputerView,
    clk: bool,
    reset: bool,
    key: Seq<bool>,
) -> ComputerView {
    let instruction = (if clk {
        v.rom_past
    } else {
        v.rom_cur
    })[val15(v.pc_address) as int];
    let comp = cpu_comp(instruction, v.a_cur, v.d_cur, v.in_m);
    let wm = instruction[15] && instruction[3];
    let a_past1 = if clk {
        v.a_cur
    } else {
        v.a_past
    };
    let a_cur1 = if clk && (!instruction[15] || instruction[5]) {
        cpu_in_a(instruction, comp)
    } else {
        v.a_cur
    };
    let d_past1 = if clk {
        v.d_cur
    } else {
        v.d_past
    };
    let d_cur1 = if clk && instruction[15] && instruction[4] {
        comp
    } else {
        v.d_cur
    };
    let pc_past1 = if clk {
        v.pc_cur
    } else {
        v.pc_past
    };
    let pc_cur1 = if !clk {
        v.pc_cur
    } else if reset {
        bits16(0)
    } else if cpu_jump(instruction, comp) {
        v.a_cur
    } else {
        bits16((((val16(v.pc_cur) + 1) % 0x10000) as u16))
    };
    let pc_read = if clk {
        pc_past1
    } else {
        pc_cur1
    };
    let a_read = if clk {
        a_past1
    } else {
        a_cur1
    };
    let am = val16(a_read) % 32768;
    let ram_past1 = if clk {
        v.ram_cur
    } else {
        v.ram_past
    };
    let ram_cur1 = if clk && wm && !a_read[14] {
        v.ram_cur.update((am % 16384) as int, comp)
    } else {
        v.ram_cur
    };
    let screen_past1 = if clk {
        v.screen_cur
    } else {
        v.screen_past
    };
    let screen_cur1 = if clk && wm && a_read[14] && !a_read[13] {
        v.screen_cur.update((am % 8192) as int, comp)
    } else {
        v.screen_cur
    };
    let pixels1 = if clk && wm && a_read[14] && !a_read[13] {
        paint(v.pixels, (am % 8192) as int, comp)
    } else {
        v.pixels
    };
    let kb_past1 = if clk {
        v.kb_cur
    } else {
        v.kb_past
    };
    let kb_cur1 = if clk {
        key
    } else {
        v.kb_cur
    };
    let in_m1 = mem_select(
        (if clk {
            ram_past1
        } else {
            ram_cur1
        })[(am % 16384) as int],
        (if clk {
            screen_past1
        } else {
            screen_cur1
        })[(am % 8192) as int],
        (if clk {
            kb_past1
        } else {
            kb_cur1
        }),
        a_read[13],
        a_read[14],
    );
    ComputerView {
        rom_past: v.rom_past,
        rom_cur: v.rom_cur,
        a_past: a_past1,
        a_cur: a_cur1,
        d_past: d_past1,
        d_cur: d_cur1,
        pc_past: pc_past1,
        pc_cur: pc_cur1,
        out_m: comp,
        write_m: wm,
        ram_past: ram_past1,
        ram_cur: ram_cur1,
        screen_past: screen_past1,
        screen_cur: screen_cur1,
        pixels: pixels1,
        kb_past: kb_past1,
        kb_cur: kb_cur1,
        in_m: in_m1,
        pc_address: pc_read.subrange(0, 15),
    }
}

/// The machine after the reset wire is asserted: the program counter, the
/// CPU registers, the whole memory and the feedback wires are cleared;
/// the ROM keeps the loaded program.
pub open spec fn computer_reset(v: ComputerView) -> ComputerView {
    ComputerView {
        rom_past: v.rom_past,
        rom_cur: v.rom_cur,
        a_past: zeros(16),
        a_cur: zeros(16),
        d_past: zeros(16),
        d_cur: zeros(16),
        pc_past: zeros(16),
        pc_cur: zeros(16),
        out_m: zeros(16),
        write_m: false,
        ram_past: Seq::new(16384, |j: int| zeros(16)),
        ram_cur: Seq::new(16384, |j: int| zeros(16)),
        screen_past: Seq::new(8192, |j: int| zeros(16)),
        screen_cur: Seq::new(8192, |j: int| zeros(16)),
        pixels: zeros(131072),
        kb_past: zeros(16),
        kb_cur: zeros(16),
        in_m: zeros(16),
        pc_address: zeros(15),
    }
}

/// The assembled machine: ROM, CPU and Memory, with the feedback wires
/// that connect them. One step is the true half-cycle followed by the
/// false half-cycle.
#[derive(Clone)]
pub struct Computer {
    rom: crate::rom::ROM32K,
    cpu: CPU,
    memory: Memory,
    in_m: Word,
    pc_address: [Binary; 15],
}

impl Computer {
    /// The nested memory vectors hold their fixed child counts.
    pub closed spec fn wf(self) -> bool {
        self.memory.wf()
    }

    /// The whole machine state.
    pub closed spec fn view_state(self) -> ComputerView {
        ComputerView {
            rom_past: self.rom.past(),
            rom_cur: self.rom.cur(),
            a_past: self.cpu.a_past(),
            a_cur: self.cpu.a_cur(),
            d_past: self.cpu.d_past(),
            d_cur: self.cpu.d_cur(),
            pc_past: self.cpu.pc_past(),
            pc_cur: self.cpu.pc_cur(),
            out_m: self.cpu.outm(),
            write_m: self.cpu.wm(),
            ram_past: self.memory.ram_past(),
            ram_cur: self.memory.ram_cur(),
            screen_past: self.memory.screen_past(),
            screen_cur: self.memory.screen_cur(),
            pixels: self.memory.pixels(),
            kb_past: self.memory.kb_past(),
            kb_cur: self.memory.kb_cur(),
            in_m: self.in_m@,
            pc_address: self.pc_address@,
        }
    }

    pub fn new() -> (r: Self)
        ensures
            r.wf(),
            r.view_state() == computer_reset(r.view_state()),
            r.view_state().rom_past == Seq::new(32768, |j: int| zeros(16)),
            r.view_state().rom_cur == Seq::new(32768, |j: int| zeros(16)),
    {
        let r = Computer {
            rom: crate::rom::ROM32K::new(),
            cpu: CPU::new(),
            memory: Memory::new(),
            in_m: [false;16],
            pc_address: [false;15],
        };
        proof {
            assert(r.in_m@ =~= zeros(16));
            assert(r.pc_address@ =~= zeros(15));
        }
        r
    }

    /// Loads a program image into the ROM; nothing else moves. The image
    /// is refused whole if a line is malformed or it is longer than the
    /// ROM.
    pub fn load_program(&mut self, instructions: Vec<&str>) -> (r: Result<(), LoadError>)
        requires
            old(self).wf(),
        ensures
            final(self).wf(),
            (r is Ok) == (instructions@.len() <= 32768 && (forall|k: int|
                0 <= k < instructions@.len() ==> line_ok(#[trigger] instructions@[k]@))),
            (r == Err::<(), LoadError>(LoadError::CapacityExceeded)) == (instructions@.len()
                > 32768),
            r is Err ==> final(self).view_state() == old(self).view_state(),
            r is Ok ==> final(self).view_state().rom_cur == crate::rom::loaded_prefix(
                old(self).view_state().rom_cur,
                instructions@,
                instructions@.len() as int,
            ),
            (r is Ok && instructions@.len() > 0) ==> final(self).view_state().rom_past
                == final(self).view_state().rom_cur,
            (r is Ok && instructions@.len() == 0) ==> final(self).view_state().rom_past
                == old(self).view_state().rom_past,
            final(self).view_state() == (ComputerView {
                rom_past: final(self).view_state().rom_past,
                rom_cur: final(self).view_state().rom_cur,
                ..old(self).view_state()
            }),
    {
        self.rom.load(instructions)
    }

    /// One half-cycle: fetch, execute, route the memory traffic, and
    /// re-latch the feedback wires.
    pub fn update(&mut self, clk: Binary, reset: Binary, key_code: Word)
        requires
            old(self).wf(),
        ensures
            final(self).wf(),
            final(self).view_state() == computer_phase(old(self).view_state(), clk, reset, key_code@),
    {
        let instruction = self.rom.get(clk, self.pc_address);
        self.cpu.update(clk, self.in_m, instruction, reset);
        let (out_m, write_m, pc, address_m) = self.cpu.get(clk);
        self.pc_address = word_to_bit15(pc);
        self.memory.update(clk, out_m, write_m, address_m, key_code);
        self.in_m = self.memory.get(clk, address_m);
        proof {
            crate::rom::rom32k_view_lens(old(self).rom);
            crate::sequential_circuit::ram16k_view_lens(old(self).memory.ram);
            crate::sequential_circuit::register_view_lens(old(self).cpu.a_register);
            crate::sequential_circuit::register_view_lens(old(self).cpu.d_register);
            crate::sequential_circuit::pc_view_lens(old(self).cpu.pc);
            crate::sequential_circuit::register_view_lens(self.cpu.a_register);
            crate::sequential_circuit::register_view_lens(self.cpu.d_register);
            crate::sequential_circuit::pc_view_lens(self.cpu.pc);
            let v = old(self).view_state();
            let p = computer_phase(v, clk, reset, key_code@);
            let a_read = if clk {
                v.a_cur
            } else {
                final(self).view_state().a_cur
            };
            assert(address_m@ =~= a_read.subrange(0, 15));
            assert(final(self).pc_address@ =~= (if clk {
                v.pc_cur
            } else {
                final(self).view_state().pc_cur
            }).subrange(0, 15));
            assert(val15(address_m@) == val16(a_read) % 32768);
            assert(address_m@[14] == a_read[14] && address_m@[13] == a_read[13]);
            assert(final(self).view_state() == p);
        }
    }

    /// One full step: the committing half-cycle and then the settling
    /// half-cycle, with the key code presented on both. Asserting `reset`
    /// instead clears the CPU registers, the program counter and the
    /// whole memory, leaving the ROM as loaded.
    pub fn step(&mut self, reset: Binary, word: u16)
        requires
            old(self).wf(),
        ensures
            final(self).wf(),
            reset ==> final(self).view_state() == computer_reset(old(self).view_state()),
            !reset ==> final(self).view_state() == computer_phase(
                computer_phase(old(self).view_state(), true, false, bits16(word)),
                false,
                false,
                bits16(word),
            ),
    {
        if reset {
            self.cpu = CPU::new();
            self.memory = Memory::new();
            self.in_m = [false;16];
            self.pc_address = [false;15];
            proof {
                assert(final(self).in_m@ =~= zeros(16));
                assert(final(self).pc_address@ =~= zeros(15));
            }
        } else {
            let key = u16_to_word(word);
            self.update(true, false, key);
            self.update(false, false, key);
        }
    }

    pub fn get_screen(&self) -> (r: [Binary; 131072])
        ensures
            r@ == self.view_state().pixels,
    {
        self.memory.get_screen()
    }
}


/// The observable state of the flat-backed machine: the builtin memories
/// keep no pre-tick copies, only the CPU registers are two-phase.
pub ghost struct ComputerBuiltInView {
    pub rom: Seq<Seq<bool>>,
    pub a_past: Seq<bool>,
    pub a_cur: Seq<bool>,
    pub d_past: Seq<bool>,
    pub d_cur: Seq<bool>,
    pub pc_past: Seq<bool>,
    pub pc_cur: Seq<bool>,
    pub out_m: Seq<bool>,
    pub write_m: bool,
    pub ram: Seq<Seq<bool>>,
    pub pixels: Seq<bool>,
    pub kb: Seq<bool>,
    pub in_m: Seq<bool>,
    pub pc_address: Seq<bool>,
}

/// One half-cycle of the flat-backed machine.
pub open spec fn computer_built_in_phase(
    v: ComputerBuiltInView,
    clk: bool,
    reset: bool,
    key: Seq<bool>,
) -> ComputerBuiltInView {
    let instruction = v.rom[val15(v.pc_address) as int];
    let comp = cpu_comp(instruction, v.a_cur, v.d_cur, v.in_m);
    let wm = instruction[15] && instruction[3];
    let a_past1 = if clk {
        v.a_cur
    } else {
        v.a_past
    };
    let a_cur1 = if clk && (!instruction[15] || instruction[5]) {
        cpu_in_a(instruction, comp)
    } else {
        v.a_cur
    };
    let d_past1 = if clk {
        v.d_cur
    } else {
        v.d_past
    };
    let d_cur1 = if clk && instruction[15] && instruction[4] {
        comp
    } else {
        v.d_cur
    };
    let pc_past1 = if clk {
        v.pc_cur
    } else {
        v.pc_past
    };
    let pc_cur1 = if !clk {
        v.pc_cur
    } else if reset {
        bits16(0)
    } else if cpu_jump(instruction, comp) {
        v.a_cur
    } else {
        bits16((((val16(v.pc_cur) + 1) % 0x10000) as u16))
    };
    let pc_read = if clk {
        pc_past1
    } else {
        pc_cur1
    };
    let a_read = if clk {
        a_past1
    } else {
        a_cur1
    };
    let am = val16(a_read) % 32768;
    let ram1 = if clk && wm && !a_read[14] {
        v.ram.update((am % 16384) as int, comp)
    } else {
        v.ram
    };
    let pixels1 = if clk && wm && a_read[14] && !a_read[13] {
        paint(v.pixels, (am % 8192) as int, comp)
    } else {
        v.pixels
    };
    let in_m1 = mem_select(
        ram1[(am % 16384) as int],
        word_at(pixels1, (am % 8192) as int),
        key,
        a_read[13],
        a_read[14],
    );
    ComputerBuiltInView {
        rom: v.rom,
        a_past: a_past1,
        a_cur: a_cur1,
        d_past: d_past1,
        d_cur: d_cur1,
        pc_past: pc_past1,
        pc_cur: pc_cur1,
        out_m: comp,
        write_m: wm,
        ram: ram1,
        pixels: pixels1,
        kb: key,
        in_m: in_m1,
        pc_address: pc_read.subrange(0, 15),
    }
}

/// The flat-backed machine after reset: everything but the ROM cleared.
pub open spec fn computer_built_in_reset(v: ComputerBuiltInView) -> ComputerBuiltInView {
    ComputerBuiltInView {
        rom: v.rom,
        a_past: zeros(16),
        a_cur: zeros(16),
        d_past: zeros(16),
        d_cur: zeros(16),
        pc_past: zeros(16),
        pc_cur: zeros(16),
        out_m: zeros(16),
        write_m: false,
        ram: Seq::new(16384, |j: int| zeros(16)),
        pixels: zeros(131072),
        kb: zeros(16),
        in_m: zeros(16),
        pc_address: zeros(15),
    }
}

/// The assembled machine over the flat-array backends; its CPU is the
/// circuit-built one, the memories are flat.
#[derive(Clone)]
pub struct ComputerBuiltIn {
    rom: crate::rom::ROM32KBuiltIn,
    cpu: CPUBuiltIn,
    memory: MemoryBuiltIn,
    in_m: Word,
    pc_address: [Binary; 15],
}

impl ComputerBuiltIn {
    /// The backing vectors hold their fixed word counts.
    pub closed spec fn wf(self) -> bool {
        self.rom.wf() && self.memory.wf()
    }

    /// The whole machine state.
    pub closed spec fn view_state(self) -> ComputerBuiltInView {
        ComputerBuiltInView {
            rom: self.rom.words(),
            a_past: self.cpu.a_past(),
            a_cur: self.cpu.a_cur(),
            d_past: self.cpu.d_past(),
            d_cur: self.cpu.d_cur(),
            pc_past: self.cpu.pc_past(),
            pc_cur: self.cpu.pc_cur(),
            out_m: self.cpu.outm(),
            write_m: self.cpu.wm(),
            ram: self.memory.ram_cur(),
            pixels: self.memory.pixels(),
            kb: self.memory.kb_cur(),
            in_m: self.in_m@,
            pc_address: self.pc_address@,
        }
    }

    pub fn new() -> (r: Self)
        ensures
            r.wf(),
            r.view_state() == computer_built_in_reset(r.view_state()),
            r.view_state().rom == Seq::new(32768, |j: int| zeros(16)),
    {
        let r = ComputerBuiltIn {
            rom: crate::rom::ROM32KBuiltIn::new(),
            cpu: CPUBuiltIn::new(),
            memory: MemoryBuiltIn::new(),
            in_m: [false;16],
            pc_address: [false;15],
        };
        proof {
            assert(r.in_m@ =~= zeros(16));
            assert(r.pc_address@ =~= zeros(15));
        }
        r
    }

    /// Loads a program image into the ROM; nothing else moves.
    pub fn load_program(&mut self, instructions: Vec<&str>) -> (r: Result<(), LoadError>)
        requires
            old(self).wf(),
        ensures
            final(self).wf(),
            (r is Ok) == (instructions@.len() <= 32768 && (forall|k: int|
                0 <= k < instructions@.len() ==> line_ok(#[trigger] instructions@[k]@))),
            (r == Err::<(), LoadError>(LoadError::CapacityExceeded)) == (instructions@.len()
                > 32768),
            r is Err ==> final(self).view_state() == old(self).view_state(),
            r is Ok ==> final(self).view_state().rom == crate::rom::loaded_prefix(
                old(self).view_state().rom,
                instructions@,
                instructions@.len() as int,
            ),
            final(self).view_state() == (ComputerBuiltInView {
                rom: final(self).view_state().rom,
                ..old(self).view_state()
            }),
    {
        self.rom.load(instructions)
    }

    /// One half-cycle of the flat-backed machine.
    pub fn update(&mut self, clk: Binary, reset: Binary, key_code: Word)
        requires
            old(self).wf(),
        ensures
            final(self).wf(),
            final(self).view_state() == computer_built_in_phase(
                old(self).view_state(),
                clk,
                reset,
                key_code@,
            ),
    {
        let instruction = self.rom.get(clk, self.pc_address);
        self.cpu.update(clk, self.in_m, instruction, reset);
        let (out_m, write_m, pc, address_m) = self.cpu.get(clk);
        self.pc_address = word_to_bit15(pc);
        self.memory.update(clk, out_m, write_m, address_m, key_code);
        self.in_m = self.memory.get(clk, address_m);
        proof {
            crate::rom::rom32k_built_in_view_lens(old(self).rom);
            crate::sequential_circuit::ram16k_built_in_view_lens(old(self).memory.ram);
            crate::sequential_circuit::register_view_lens(old(self).cpu.a_register);
            crate::sequential_circuit::register_view_lens(old(self).cpu.d_register);
            crate::sequential_circuit::pc_view_lens(old(self).cpu.pc);
            crate::sequential_circuit::register_view_lens(self.cpu.a_register);
            crate::sequential_circuit::register_view_lens(self.cpu.d_register);
            crate::sequential_circuit::pc_view_lens(self.cpu.pc);
            let v = old(self).view_state();
            let p = computer_built_in_phase(v, clk, reset, key_code@);
            let a_read = if clk {
                v.a_cur
            } else {
                final(self).view_state().a_cur
            };
            assert(address_m@ =~= a_read.subrange(0, 15));
            assert(final(self).pc_address@ =~= (if clk {
                v.pc_cur
            } else {
                final(self).view_state().pc_cur
            }).subrange(0, 15));
            assert(val15(address_m@) == val16(a_read) % 32768);
            assert(address_m@[14] == a_read[14] && address_m@[13] == a_read[13]);
            assert(final(self).view_state() == p);
        }
    }

    /// One full step; asserting `reset` instead clears everything but the
    /// ROM, exactly as the circuit-built machine does.
    pub fn step(&mut self, reset: Binary, word: u16)
        requires
            old(self).wf(),
        ensures
            final(self).wf(),
            reset ==> final(self).view_state() == computer_built_in_reset(old(self).view_state()),
            !reset ==> final(self).view_state() == computer_built_in_phase(
                computer_built_in_phase(old(self).view_state(), true, false, bits16(word)),
                false,
                false,
                bits16(word),
            ),
    {
        if reset {
            self.cpu = CPUBuiltIn::new();
            self.memory = MemoryBuiltIn::new();
            self.in_m = [false;16];
            self.pc_address = [false;15];
            proof {
                assert(final(self).in_m@ =~= zeros(16));
                assert(final(self).pc_address@ =~= zeros(15));
            }
        } else {
            let key = u16_to_word(word);
            self.update(true, false, key);
            self.update(false, false, key);
        }
    }

    pub fn get_screen(&self) -> (r: [Binary; 131072])
        ensures
            r@ == self.view_state().pixels,
    {
        self.memory.get_screen()
    }
}

} // verus!
