//! The demo system: a computer with the canonical "fill while a key is
//! pressed" program loaded. Stepped with a zero key code the program
//! clears the screen; with any other key code it blackens it.
use vstd::prelude::*;

use crate::hardware::{computer_phase, computer_reset, Computer, ComputerView};
use crate::model::{bits16, zeros};
use crate::rom::{line_ok, parse_line};

verus! {

/// Line `k` of the canonical fill program: an outer loop reads the
/// keyboard and picks a color (all ones for a pressed key, all zeros
/// otherwise), an inner loop writes that color across all 8192 screen
/// words.
pub open spec fn fill_line(k: int) -> Seq<char>
    recommends
        0 <= k < 37,
{
    if k == 0 {
        "0110000000000000"@
    } else if k == 1 {
        "1111110000010000"@
    } else if k == 2 {
        "0000000000001000"@
    } else if k == 3 {
        "1110001100000101"@
    } else if k == 4 {
        "0000000000000000"@
    } else if k == 5 {
        "1110110000010000"@
    } else if k == 6 {
        "0000000000001010"@
    } else if k == 7 {
        "1110101010000111"@
    } else if k == 8 {
        "0000000000000000"@
    } else if k == 9 {
        "1110110010010000"@
    } else if k == 10 {
        "0000000000010000"@
    } else if k == 11 {
        "1110001100001000"@
    } else if k == 12 {
        "0100000000000000"@
    } else if k == 13 {
        "1110110000010000"@
    } else if k == 14 {
        "0000000000010001"@
    } else if k == 15 {
        "1110001100001000"@
    } else if k == 16 {
        "0010000000000000"@
    } else if k == 17 {
        "1110110000010000"@
    } else if k == 18 {
        "0000000000010010"@
    } else if k == 19 {
        "1110001100001000"@
    } else if k == 20 {
        "0000000000010010"@
    } else if k == 21 {
        "1111110000010000"@
    } else if k == 22 {
        "0000000000100011"@
    } else if k == 23 {
        "1110001100000010"@
    } else if k == 24 {
        "0000000000010000"@
    } else if k == 25 {
        "1111110000010000"@
    } else if k == 26 {
        "0000000000010001"@
    } else if k == 27 {
        "1111110000100000"@
    } else if k == 28 {
        "1110001100001000"@
    } else if k == 29 {
        "0000000000010001"@
    } else if k == 30 {
        "1111110111001000"@
    } else if k == 31 {
        "0000000000010010"@
    } else if k == 32 {
        "1111110010001000"@
    } else if k == 33 {
        "0000000000010100"@
    } else if k == 34 {
        "1110101010000111"@
    } else if k == 35 {
        "0000000000000000"@
    } else {
        "1110101010000111"@
    }
}

/// The ROM contents after the fill program is loaded: its 37 parsed
/// words at addresses 0 to 36, zeros everywhere above.
pub open spec fn fill_rom() -> Seq<Seq<bool>> {
    Seq::new(
        32768,
        |j: int|
            if j < 37 {
                parse_line(fill_line(j))
            } else {
                zeros(16)
            },
    )
}

/// Every line of the fill program is sixteen `'0'`/`'1'` characters.
#[verifier::rlimit(100)]
#[verifier::spinoff_prover]
pub proof fn lemma_fill_lines_ok()
    ensures
        forall|k: int| 0 <= k < 37 ==> line_ok(#[trigger] fill_line(k)),
{
    reveal_strlit("0110000000000000");
    reveal_strlit("1111110000010000");
    reveal_strlit("0000000000001000");
    reveal_strlit("1110001100000101");
    reveal_strlit("0000000000000000");
    reveal_strlit("1110110000010000");
    reveal_strlit("0000000000001010");
    reveal_strlit("1110101010000111");
    reveal_strlit("1110110010010000");
    reveal_strlit("0000000000010000");
    reveal_strlit("1110001100001000");
    reveal_strlit("0100000000000000");
    reveal_strlit("0000000000010001");
    reveal_strlit("0010000000000000");
    reveal_strlit("0000000000010010");
    reveal_strlit("0000000000100011");
    reveal_strlit("1110001100000010");
    reveal_strlit("1111110000100000");
    reveal_strlit("1111110111001000");
    reveal_strlit("1111110010001000");
    reveal_strlit("0000000000010100");
}

/// The canonical fill program, one instruction per line.
#[verifier::rlimit(100)]
#[verifier::spinoff_prover]
pub fn get_instructions() -> (r: Vec<&'static str>)
    ensures
        r@.len() == 37,
        forall|k: int| 0 <= k < 37 ==> (#[trigger] r@[k])@ == fill_line(k),
{
    let mut instructions: Vec<&'static str> = Vec::new();
    instructions.push("0110000000000000");
    instructions.push("1111110000010000");
    instructions.push("0000000000001000");
    instructions.push("1110001100000101");
    instructions.push("0000000000000000");
    instructions.push("1110110000010000");
    instructions.push("0000000000001010");
    instructions.push("1110101010000111");
    instructions.push("0000000000000000");
    instructions.push("1110110010010000");
    instructions.push("0000000000010000");
    instructions.push("1110001100001000");
    instructions.push("0100000000000000");
    instructions.push("1110110000010000");
    instructions.push("0000000000010001");
    instructions.push("1110001100001000");
    instructions.push("0010000000000000");
    instructions.push("1110110000010000");
    instructions.push("0000000000010010");
    instructions.push("1110001100001000");
    instructions.push("0000000000010010");
    instructions.push("1111110000010000");
    instructions.push("0000000000100011");
    instructions.push("1110001100000010");
    instructions.push("0000000000010000");
    instructions.push("1111110000010000");
    instructions.push("0000000000010001");
    instructions.push("1111110000100000");
    instructions.push("1110001100001000");
    instructions.push("0000000000010001");
    instructions.push("1111110111001000");
    instructions.push("0000000000010010");
    instructions.push("1111110010001000");
    instructions.push("0000000000010100");
    instructions.push("1110101010000111");
    instructions.push("0000000000000000");
    instructions.push("1110101010000111");
    proof {
        assert forall|k: int| 0 <= k < 37 implies (#[trigger] instructions@[k])@ == fill_line(
            k,
        ) by {}
    }
    instructions
}

/// A computer with the fill program loaded and not yet stepped.
pub struct Nand2Tetris {
    computer: Box<Computer>,
}

impl Nand2Tetris {
    /// The nested memory vectors hold their fixed child counts.
    pub closed spec fn wf(self) -> bool {
        self.computer.wf()
    }

    /// The inner machine's state.
    pub closed spec fn view_state(self) -> ComputerView {
        self.computer.view_state()
    }

    /// Builds the machine: the ROM holds the fill program and everything
    /// else starts cleared, so the first step fetches line 0.
    pub fn new() -> (r: Self)
        ensures
            r.wf(),
            r.view_state() == (ComputerView {
                rom_past: fill_rom(),
                rom_cur: fill_rom(),
                ..computer_reset(r.view_state())
            }),
    {
        let instructions = get_instructions();
        let mut computer = Box::new(Computer::new());
        let loaded = computer.load_program(instructions);
        proof {
            lemma_fill_lines_ok();
            assert(loaded is Ok);
            assert(computer.view_state().rom_cur =~= fill_rom());
        }
        Nand2Tetris { computer }
    }

    /// One machine step under the given key code: the committing and the
    /// settling half-cycle, or the clearing reset step.
    pub fn step(&mut self, reset: bool, key_code: u16)
        requires
            old(self).wf(),
        ensures
            final(self).wf(),
            reset ==> final(self).view_state() == computer_reset(old(self).view_state()),
            !reset ==> final(self).view_state() == computer_phase(
                computer_phase(old(self).view_state(), true, false, bits16(key_code)),
                false,
                false,
                bits16(key_code),
            ),
    {
        self.computer.step(reset, key_code);
    }

    /// The pixel readout.
    pub fn get_screen(&self) -> (r: [bool; 131072])
        ensures
            r@ == self.view_state().pixels,
    {
        self.computer.get_screen()
    }
}

} // verus!
