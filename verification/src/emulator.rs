//! The instruction-decoding backend: the same instruction set executed
//! directly over flat registers and a flat RAM, one instruction per step.
use vstd::prelude::*;

use crate::helper::u16_to_word;
use crate::instruction::{decodable, decode_spec, CComp, CDest, CJump, Instruction};
use crate::model::{bits16, val16};
use crate::rom::{check_line, line_ok, parse_line, LoadError};
use crate::word::Word;

verus! {

/// 16-bit wrapping sum.
pub open spec fn add16u(a: u16, b: u16) -> u16 {
    ((a + b) % 0x10000) as u16
}

/// 16-bit two's-complement negation.
pub open spec fn neg16(a: u16) -> u16 {
    ((0x10000 - a) % 0x10000) as u16
}

/// What each computation yields, over the unsigned values of A, D and
/// the fetched memory word.
pub open spec fn comp_spec(c: CComp, a: u16, d: u16, m: u16) -> u16 {
    match c {
        CComp::Zero => 0,
        CComp::One => 1,
        CComp::MinusOne => neg16(1),
        CComp::D => d,
        CComp::A => a,
        CComp::M => m,
        CComp::NotD => !d,
        CComp::NotA => !a,
        CComp::NotM => !m,
        CComp::MinusD => neg16(d),
        CComp::MinusA => neg16(a),
        CComp::MinusM => neg16(m),
        CComp::DPlusOne => add16u(d, 1),
        CComp::APlusOne => add16u(a, 1),
        CComp::MPlusOne => add16u(m, 1),
        CComp::DMinusOne => add16u(d, neg16(1)),
        CComp::AMinusOne => add16u(a, neg16(1)),
        CComp::MMinusOne => add16u(m, neg16(1)),
        CComp::DPlusA => add16u(d, a),
        CComp::DPlusM => add16u(d, m),
        CComp::DMinusA => add16u(d, neg16(a)),
        CComp::DMinusM => add16u(d, neg16(m)),
        CComp::AMinusD => add16u(a, neg16(d)),
        CComp::MMinusD => add16u(m, neg16(d)),
        CComp::DAndA => d & a,
        CComp::DAndM => d & m,
        CComp::DOrA => d | a,
        CComp::AOrM => d | m,
    }
}

/// Whether a jump condition holds of a computed word, read as a signed
/// number.
pub open spec fn jump_spec(j: CJump, comp: u16) -> bool {
    let neg = comp >= 0x8000;
    let zero = comp == 0;
    match j {
        CJump::Never => false,
        CJump::GreaterThan => !neg && !zero,
        CJump::EqualTo => zero,
        CJump::GreaterThanAndEqualTo => !neg,
        CJump::LessThan => neg,
        CJump::NotEqualTo => !zero,
        CJump::LessThanAndEqualTo => neg || zero,
        CJump::True => true,
    }
}

/// Whether a destination set includes the A register.
pub open spec fn dest_writes_a(dest: CDest) -> bool {
    dest == CDest::A || dest == CDest::AAndRamA || dest == CDest::AAndD || dest
        == CDest::AAndDAndRamA
}

/// Whether a destination set includes the D register.
pub open spec fn dest_writes_d(dest: CDest) -> bool {
    dest == CDest::D || dest == CDest::DAndRamA || dest == CDest::AAndD || dest
        == CDest::AAndDAndRamA
}

/// Whether a destination set includes RAM[A].
pub open spec fn dest_writes_m(dest: CDest) -> bool {
    dest == CDest::RamA || dest == CDest::DAndRamA || dest == CDest::AAndRamA || dest
        == CDest::AAndDAndRamA
}

/// The observable state of the decoding backend.
pub ghost struct EmuView {
    pub pc: u16,
    pub a: u16,
    pub d: u16,
    pub ram: Seq<u16>,
    pub rom: Seq<Instruction>,
    pub upd: Seq<u16>,
}

/// One non-reset step: latch the key code, fetch at the program counter
/// (which addresses the ROM modulo its size), execute the instruction.
/// The memory word, the RAM write address and the jump target all use
/// the A register as it stood before the instruction.
pub open spec fn emu_step(v: EmuView, key: u16) -> EmuView {
    let ram1 = v.ram.update(24576, key);
    let inst = v.rom[(v.pc % 32768) as int];
    match inst {
        Instruction::A(x) => EmuView {
            pc: add16u(v.pc, 1),
            a: x,
            d: v.d,
            ram: ram1,
            rom: v.rom,
            upd: v.upd,
        },
        Instruction::C(c, dest, j) => {
            let m = ram1[v.a as int];
            let w = comp_spec(c, v.a, v.d, m);
            EmuView {
                pc: if jump_spec(j, w) {
                    v.a
                } else {
                    add16u(v.pc, 1)
                },
                a: if dest_writes_a(dest) {
                    w
                } else {
                    v.a
                },
                d: if dest_writes_d(dest) {
                    w
                } else {
                    v.d
                },
                ram: if dest_writes_m(dest) {
                    ram1.update(v.a as int, w)
                } else {
                    ram1
                },
                rom: v.rom,
                upd: if dest_writes_m(dest) && 16384 <= v.a <= 24575 {
                    v.upd.push(v.a)
                } else {
                    v.upd
                },
            }
        },
    }
}

/// The state after a reset step: the RAM and the registers cleared, the
/// ROM and the pending screen updates kept.
pub open spec fn emu_reset(v: EmuView) -> EmuView {
    EmuView {
        pc: 0,
        a: 0,
        d: 0,
        ram: Seq::new(65536, |j: int| 0u16),
        rom: v.rom,
        upd: v.upd,
    }
}

/// The flattened pixel readout of the RAM's screen region.
pub open spec fn emu_pixels(ram: Seq<u16>) -> Seq<bool> {
    Seq::new(131072, |p: int| bits16(ram[16384 + p / 16])[p % 16])
}

/// The decoding backend: registers, flat RAM with the memory map of the
/// gate-level machine, and a dense decoded ROM.
#[derive(Clone)]
pub struct Computer {
    pc: Word,
    a: Word,
    d: Word,
    ram: Vec<Word>,
    rom: Vec<Instruction>,
    update_screen_addrs: Vec<u16>,
}

impl Computer {
    /// The RAM covers the full address space, the ROM is dense, and only
    /// screen addresses are ever recorded as dirty.
    pub closed spec fn wf(self) -> bool {
        self.ram.len() == 65536 && self.rom.len() == 32768 && (forall|k: int|
            0 <= k < self.update_screen_addrs.len() ==> 16384 <= #[trigger] self.update_screen_addrs@[k] <= 24575)
    }

    /// The observable state.
    pub closed spec fn view_state(self) -> EmuView {
        EmuView {
            pc: self.pc.val(),
            a: self.a.val(),
            d: self.d.val(),
            ram: Seq::new(65536, |j: int| self.ram@[j].val()),
            rom: self.rom@,
            upd: self.update_screen_addrs@,
        }
    }

    pub fn new() -> (r: Self)
        ensures
            r.wf(),
            r.view_state().pc == 0,
            r.view_state().a == 0,
            r.view_state().d == 0,
            r.view_state().ram == Seq::new(65536, |j: int| 0u16),
            r.view_state().rom == Seq::new(32768, |j: int| Instruction::A(0)),
            r.view_state().upd == Seq::<u16>::empty(),
    {
        let mut ram: Vec<Word> = Vec::new();
        for _i in 0..65536
            invariant
                ram@.len() == _i,
                forall|j: int| 0 <= j < _i ==> (#[trigger] ram@[j]).val() == 0,
        {
            ram.push(Word::new());
        }
        let mut rom: Vec<Instruction> = Vec::new();
        for _i in 0..32768
            invariant
                rom@.len() == _i,
                forall|j: int| 0 <= j < _i ==> (#[trigger] rom@[j]) == Instruction::A(0),
        {
            rom.push(Instruction::A(0));
        }
        let r = Computer { pc: Word::new(), a: Word::new(), d: Word::new(), ram, rom, update_screen_addrs: Vec::new() };
        proof {
            assert(r.view_state().ram =~= Seq::new(65536, |j: int| 0u16));
            assert(r.view_state().rom =~= Seq::new(32768, |j: int| Instruction::A(0)));
            assert(r.view_state().upd =~= Seq::<u16>::empty());
        }
        r
    }

    /// Clears the whole RAM, the screen and keyboard words included.
    pub fn reset_ram(&mut self)
        requires
            old(self).wf(),
        ensures
            final(self).wf(),
            final(self).view_state() == (EmuView {
                ram: Seq::new(65536, |j: int| 0u16),
                ..old(self).view_state()
            }),
    {
        self.ram.clear();
        for _i in 0..65536
            invariant
                self.ram@.len() == _i,
                forall|j: int| 0 <= j < _i ==> (#[trigger] self.ram@[j]).val() == 0,
                self.pc == old(self).pc,
                self.a == old(self).a,
                self.d == old(self).d,
                self.rom@ == old(self).rom@,
                self.update_screen_addrs@ == old(self).update_screen_addrs@,
        {
            self.ram.push(Word::new());
        }
        proof {
            assert(final(self).view_state().ram =~= Seq::new(65536, |j: int| 0u16));
            assert(final(self).view_state() == (EmuView {
                ram: Seq::new(65536, |j: int| 0u16),
                ..old(self).view_state()
            }));
        }
    }

    /// Whether an address falls in the memory-mapped screen range.
    pub fn is_screen_addr(addr: &Word) -> (r: bool)
        ensures
            r == (16384 <= addr.val() <= 24575),
    {
        let addr = addr.to_u16();
        addr >= 16384 && addr <= 24575
    }

    /// Loads a program image: every line must be sixteen `'0'`/`'1'`
    /// characters, denote a representable instruction, and the image must
    /// fit the ROM. The remainder of the ROM reads as `@0`.
    pub fn load_program(&mut self, instructions: Vec<&str>) -> (r: Result<(), LoadError>)
        requires
            old(self).wf(),
        ensures
            final(self).wf(),
            (r is Ok) == (instructions@.len() <= 32768 && (forall|k: int|
                0 <= k < instructions@.len() ==> line_ok(#[trigger] instructions@[k]@)
                    && decodable(val16(parse_line(instructions@[k]@)) as u16))),
            (r == Err::<(), LoadError>(LoadError::CapacityExceeded)) == (instructions@.len()
                > 32768),
            r is Err ==> final(self).view_state() == old(self).view_state(),
            r is Ok ==> final(self).view_state() == (EmuView {
                rom: Seq::new(
                    32768,
                    |j: int|
                        if j < instructions@.len() {
                            decode_spec(val16(parse_line(instructions@[j]@)) as u16)
                        } else {
                            Instruction::A(0)
                        },
                ),
                ..old(self).view_state()
            }),
    {
        let n = instructions.len();
        if n > 32768 {
            return Err(LoadError::CapacityExceeded);
        }
        for k in 0..n
            invariant
                n == instructions@.len() <= 32768,
                forall|j: int|
                    0 <= j < k ==> line_ok(#[trigger] instructions@[j]@) && decodable(
                        val16(parse_line(instructions@[j]@)) as u16,
                    ),
        {
            if !check_line(instructions[k]) {
                return Err(LoadError::MalformedLine);
            }
            if !Instruction::check_decodable(instructions[k]) {
                return Err(LoadError::UnsupportedInstruction);
            }
        }
        let mut rom: Vec<Instruction> = Vec::new();
        for k in 0..n
            invariant
                n == instructions@.len() <= 32768,
                forall|j: int|
                    0 <= j < n ==> line_ok(#[trigger] instructions@[j]@) && decodable(
                        val16(parse_line(instructions@[j]@)) as u16,
                    ),
                rom@.len() == k,
                forall|j: int|
                    0 <= j < k ==> (#[trigger] rom@[j]) == decode_spec(
                        val16(parse_line(instructions@[j]@)) as u16,
                    ),
        {
            rom.push(Instruction::new(instructions[k]));
        }
        for _k in n..32768
            invariant
                n == instructions@.len(),
                rom@.len() == _k,
                forall|j: int|
                    0 <= j < n ==> (#[trigger] rom@[j]) == decode_spec(
                        val16(parse_line(instructions@[j]@)) as u16,
                    ),
                forall|j: int| n <= j < _k ==> (#[trigger] rom@[j]) == Instruction::A(0),
        {
            rom.push(Instruction::A(0));
        }
        self.rom = rom;
        proof {
            assert(final(self).view_state().rom =~= Seq::new(
                32768,
                |j: int|
                    if j < instructions@.len() {
                        decode_spec(val16(parse_line(instructions@[j]@)) as u16)
                    } else {
                        Instruction::A(0)
                    },
            ));
            assert(final(self).view_state().ram =~= old(self).view_state().ram);
        }
        Ok(())
    }

    /// The computed word of a C-instruction.
    pub fn comp(comp: &CComp, a: &Word, d: &Word, m: &Word) -> (r: Word)
        ensures
            r.val() == comp_spec(*comp, a.val(), d.val(), m.val()),
    {
        match comp {
            CComp::Zero => Word::new(),
            CComp::One => Word::from(1),
            CComp::MinusOne => Word::from(1).minus(),
            CComp::D => d.clone(),
            CComp::A => a.clone(),
            CComp::M => m.clone(),
            CComp::NotD => d.not(),
            CComp::NotA => a.not(),
            CComp::NotM => m.not(),
            CComp::MinusD => d.minus(),
            CComp::MinusA => a.minus(),
            CComp::MinusM => m.minus(),
            CComp::DPlusOne => d.add(&Word::from(1)),
            CComp::APlusOne => a.add(&Word::from(1)),
            CComp::MPlusOne => m.add(&Word::from(1)),
            CComp::DMinusOne => d.add(&Word::from(1).minus()),
            CComp::AMinusOne => a.add(&Word::from(1).minus()),
            CComp::MMinusOne => m.add(&Word::from(1).minus()),
            CComp::DPlusA => d.add(a),
            CComp::DPlusM => d.add(m),
            CComp::DMinusA => d.add(&a.minus()),
            CComp::DMinusM => d.add(&m.minus()),
            CComp::AMinusD => a.add(&d.minus()),
            CComp::MMinusD => m.add(&d.minus()),
            CComp::DAndA => d.and(a),
            CComp::DAndM => d.and(m),
            CComp::DOrA => d.or(a),
            CComp::AOrM => d.or(m),
        }
    }

    /// Whether the jump condition holds of the computed word.
    pub fn jump(jump: &CJump, comp: &Word) -> (r: bool)
        ensures
            r == jump_spec(*jump, comp.val()),
    {
        match jump {
            CJump::Never => false,
            CJump::GreaterThan => comp.to_i16() > 0,
            CJump::EqualTo => comp.to_i16() == 0,
            CJump::GreaterThanAndEqualTo => comp.to_i16() >= 0,
            CJump::LessThan => comp.to_i16() < 0,
            CJump::NotEqualTo => comp.to_i16() != 0,
            CJump::LessThanAndEqualTo => comp.to_i16() <= 0,
            CJump::True => true,
        }
    }

    /// One step: latch the key code and execute the fetched instruction;
    /// with `reset` the registers and RAM are cleared instead and the ROM
    /// is kept.
    pub fn step(&mut self, reset: bool, key_code: u16)
        requires
            old(self).wf(),
        ensures
            final(self).wf(),
            reset ==> final(self).view_state() == emu_reset(old(self).view_state()),
            !reset ==> final(self).view_state() == emu_step(old(self).view_state(), key_code),
    {
        if reset {
            self.reset_ram();
            self.pc = Word::new();
            self.a = Word::new();
            self.d = Word::new();
            return ;
        }
        self.ram[24576] = Word::from(key_code);
        let ghost ram1 = self.view_state().ram;
        proof {
            assert(ram1 =~= old(self).view_state().ram.update(24576, key_code));
        }
        let pc_index = self.pc.to_u16() % 32768;
        let inst = self.rom[pc_index as usize];
        proof {
            assert(self.rom@[pc_index as int] == old(self).view_state().rom[(old(
                self,
            ).view_state().pc % 32768) as int]);
        }
        match inst {
            Instruction::A(x) => {
                self.a = Word::from(x);
                self.pc = self.pc.add(&Word::from(1));
            },
            Instruction::C(c, dest, j) => {
                let m = self.ram[self.a.to_u16() as usize];
                let w = Self::comp(&c, &self.a, &self.d, &m);
                let a_before = self.a;
                match dest {
                    CDest::Null => {},
                    CDest::RamA => {
                        self.ram[a_before.to_u16() as usize] = w;
                        if Self::is_screen_addr(&a_before) {
                            self.update_screen_addrs.push(a_before.to_u16());
                        }
                    },
                    CDest::D => {
                        self.d = w;
                    },
                    CDest::DAndRamA => {
                        self.d = w;
                        self.ram[a_before.to_u16() as usize] = w;
                        if Self::is_screen_addr(&a_before) {
                            self.update_screen_addrs.push(a_before.to_u16());
                        }
                    },
                    CDest::A => {
                        self.a = w;
                    },
                    CDest::AAndRamA => {
                        self.a = w;
                        self.ram[a_before.to_u16() as usize] = w;
                        if Self::is_screen_addr(&a_before) {
                            self.update_screen_addrs.push(a_before.to_u16());
                        }
                    },
                    CDest::AAndD => {
                        self.a = w;
                        self.d = w;
                    },
                    CDest::AAndDAndRamA => {
                        self.a = w;
                        self.d = w;
                        self.ram[a_before.to_u16() as usize] = w;
                        if Self::is_screen_addr(&a_before) {
                            self.update_screen_addrs.push(a_before.to_u16());
                        }
                    },
                }
                self.pc = if Self::jump(&j, &w) {
                    a_before
                } else {
                    self.pc.add(&Word::from(1))
                };
                proof {
                    assert(self.view_state().ram =~= emu_step(
                        old(self).view_state(),
                        key_code,
                    ).ram);
                    assert(self.view_state().upd =~= emu_step(
                        old(self).view_state(),
                        key_code,
                    ).upd);
                }
            },
        }
        proof {
            assert(self.view_state().ram =~= emu_step(old(self).view_state(), key_code).ram);
            assert(self.view_state().upd =~= emu_step(old(self).view_state(), key_code).upd);
        }
    }

    /// The screen region of the RAM flattened to one pixel per bit.
    pub fn get_screen(&self) -> (r: [bool; 131072])
        requires
            self.wf(),
        ensures
            r@ == emu_pixels(self.view_state().ram),
    {
        let mut screen = [false;131072];
        for i in 0..8192
            invariant
                forall|p: int|
                    0 <= p < 16 * i ==> (#[trigger] screen@[p]) == bits16(
                        self.view_state().ram[16384 + p / 16],
                    )[p % 16],
        {
            let w = u16_to_word(self.ram[16384 + i].to_u16());
            for j in 0..16
                invariant
                    16384 + i < 24576,
                    w@ == bits16(self.view_state().ram[16384 + i as int]),
                    forall|p: int|
                        0 <= p < 16 * i + j ==> (#[trigger] screen@[p]) == bits16(
                            self.view_state().ram[16384 + p / 16],
                        )[p % 16],
            {
                screen[16 * i + j] = w[j];
                proof {
                    let p = 16 * (i as int) + j;
                    crate::model::lemma_place_value(p as nat, 16, i as nat, j as nat);
                }
            }
        }
        proof {
            assert(screen@ =~= emu_pixels(self.view_state().ram));
        }
        screen
    }

    /// Drains the recorded screen writes into per-pixel coordinates and
    /// colors: sixteen pixels per recorded word, row-major on a 512-wide
    /// screen.
    pub fn get_update_screen_pixels(&mut self) -> (r: Vec<(i32, i32, bool)>)
        requires
            old(self).wf(),
        ensures
            final(self).wf(),
            final(self).view_state() == (EmuView { upd: Seq::<u16>::empty(), ..old(
                self,
            ).view_state() }),
            r@.len() == 16 * old(self).view_state().upd.len(),
            forall|k: int|
                0 <= k < r@.len() ==> {
                    let addr = old(self).view_state().upd[k / 16];
                    let px = (addr - 16384) * 16 + k % 16;
                    (#[trigger] r@[k]) == (
                    (px % 512) as i32,
                    (px / 512) as i32,
                    bits16(old(self).view_state().ram[addr as int])[k % 16],
                    )
                },
    {
        let mut pixels: Vec<(i32, i32, bool)> = Vec::new();
        let count = self.update_screen_addrs.len();
        for t in 0..count
            invariant
                count == old(self).view_state().upd.len(),
                self.update_screen_addrs@ == old(self).update_screen_addrs@,
                self.ram@ == old(self).ram@,
                self.rom@ == old(self).rom@,
                self.pc == old(self).pc,
                self.a == old(self).a,
                self.d == old(self).d,
                old(self).wf(),
                pixels@.len() == 16 * t,
                forall|k: int|
                    0 <= k < 16 * t ==> {
                        let addr = old(self).view_state().upd[k / 16];
                        let px = (addr - 16384) * 16 + k % 16;
                        (#[trigger] pixels@[k]) == (
                        (px % 512) as i32,
                        (px / 512) as i32,
                        bits16(old(self).view_state().ram[addr as int])[k % 16],
                        )
                    },
        {
            let addr = self.update_screen_addrs[t];
            let base: u32 = (addr as u32 - 16384) * 16;
            let w = u16_to_word(self.ram[addr as usize].to_u16());
            for j in 0..16
                invariant
                    count == old(self).view_state().upd.len(),
                    self.update_screen_addrs@ == old(self).update_screen_addrs@,
                    self.ram@ == old(self).ram@,
                    self.rom@ == old(self).rom@,
                    self.pc == old(self).pc,
                    self.a == old(self).a,
                    self.d == old(self).d,
                    old(self).wf(),
                    t < count,
                    addr == old(self).view_state().upd[t as int],
                    16384 <= addr <= 24575,
                    base == (addr - 16384) * 16,
                    w@ == bits16(old(self).view_state().ram[addr as int]),
                    pixels@.len() == 16 * t + j,
                    forall|k: int|
                        0 <= k < 16 * t + j ==> {
                            let a2 = old(self).view_state().upd[k / 16];
                            let px = (a2 - 16384) * 16 + k % 16;
                            (#[trigger] pixels@[k]) == (
                            (px % 512) as i32,
                            (px / 512) as i32,
                            bits16(old(self).view_state().ram[a2 as int])[k % 16],
                            )
                        },
            {
                let px: u32 = base + j as u32;
                let x: i32 = (px % 512) as i32;
                let y: i32 = (px / 512) as i32;
                let color = w[j];
                pixels.push((x, y, color));
                proof {
                    let k = 16 * (t as int) + j;
                    crate::model::lemma_place_value(k as nat, 16, t as nat, j as nat);
                }
            }
        }
        self.update_screen_addrs.clear();
        proof {
            assert(final(self).view_state().upd =~= Seq::<u16>::empty());
            assert(final(self).view_state() == (EmuView { upd: Seq::<u16>::empty(), ..old(
                self,
            ).view_state() }));
        }
        pixels
    }
}

} // verus!
