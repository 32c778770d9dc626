//! Decoded Hack instructions for the instruction-decoding backend: an
//! A-instruction carries a literal, a C-instruction a computation, a
//! destination set and a jump condition.
use vstd::prelude::*;
use vstd::string::StrSliceExecFns;

use crate::helper::word_to_u16;
use crate::model::val16;
use crate::rom::{line_ok, parse_line};

verus! {

/// One ROM word: a literal load into A, or a computation.
#[derive(Clone, Copy, PartialEq, Eq, Structural, Debug)]
pub enum Instruction {
    A(u16),
    C(CComp, CDest, CJump),
}

/// The 28 canonical computations a C-instruction can select.
#[derive(Clone, Copy, PartialEq, Eq, Structural, Debug)]
pub enum CComp {
    Zero,
    One,
    MinusOne,
    D,
    A,
    M,
    NotD,
    NotA,
    NotM,
    MinusD,
    MinusA,
    MinusM,
    DPlusOne,
    APlusOne,
    MPlusOne,
    DMinusOne,
    AMinusOne,
    MMinusOne,
    DPlusA,
    DPlusM,
    DMinusA,
    DMinusM,
    AMinusD,
    MMinusD,
    DAndA,
    DAndM,
    DOrA,
    AOrM,
}

/// Which of A, D and RAM[A] receive the computed word.
#[derive(Clone, Copy, PartialEq, Eq, Structural, Debug)]
pub enum CDest {
    Null,
    RamA,
    D,
    DAndRamA,
    A,
    AAndRamA,
    AAndD,
    AAndDAndRamA,
}

/// The jump condition tested against the computed word.
#[derive(Clone, Copy, PartialEq, Eq, Structural, Debug)]
pub enum CJump {
    Never,
    GreaterThan,
    EqualTo,
    GreaterThanAndEqualTo,
    LessThan,
    NotEqualTo,
    LessThanAndEqualTo,
    True,
}

/// An A-instruction has bit 15 clear.
pub open spec fn is_a_spec(inst: u16) -> bool {
    inst & 0x8000 == 0
}

/// A C-instruction has its top three bits set.
pub open spec fn is_c_spec(inst: u16) -> bool {
    inst & 0xE000 == 0xE000
}

/// The seven computation-select bits, instruction bit 12 highest.
pub open spec fn comp_bits(inst: u16) -> u16 {
    (inst & 0x1FC0) >> 6u16
}

/// The computation a 7-bit pattern selects, if it is one of the 28
/// canonical patterns.
pub open spec fn comp_of_bits(bits: u16) -> Option<CComp> {
    if bits == 0x2A {
        Some(CComp::Zero)
    } else if bits == 0x3F {
        Some(CComp::One)
    } else if bits == 0x3A {
        Some(CComp::MinusOne)
    } else if bits == 0x0C {
        Some(CComp::D)
    } else if bits == 0x30 {
        Some(CComp::A)
    } else if bits == 0x70 {
        Some(CComp::M)
    } else if bits == 0x0D {
        Some(CComp::NotD)
    } else if bits == 0x31 {
        Some(CComp::NotA)
    } else if bits == 0x71 {
        Some(CComp::NotM)
    } else if bits == 0x0F {
        Some(CComp::MinusD)
    } else if bits == 0x33 {
        Some(CComp::MinusA)
    } else if bits == 0x73 {
        Some(CComp::MinusM)
    } else if bits == 0x1F {
        Some(CComp::DPlusOne)
    } else if bits == 0x37 {
        Some(CComp::APlusOne)
    } else if bits == 0x77 {
        Some(CComp::MPlusOne)
    } else if bits == 0x0E {
        Some(CComp::DMinusOne)
    } else if bits == 0x32 {
        Some(CComp::AMinusOne)
    } else if bits == 0x72 {
        Some(CComp::MMinusOne)
    } else if bits == 0x02 {
        Some(CComp::DPlusA)
    } else if bits == 0x42 {
        Some(CComp::DPlusM)
    } else if bits == 0x13 {
        Some(CComp::DMinusA)
    } else if bits == 0x53 {
        Some(CComp::DMinusM)
    } else if bits == 0x07 {
        Some(CComp::AMinusD)
    } else if bits == 0x47 {
        Some(CComp::MMinusD)
    } else if bits == 0x00 {
        Some(CComp::DAndA)
    } else if bits == 0x40 {
        Some(CComp::DAndM)
    } else if bits == 0x15 {
        Some(CComp::DOrA)
    } else if bits == 0x55 {
        Some(CComp::AOrM)
    } else {
        None
    }
}

/// The destination set named by instruction bits 5..3.
pub open spec fn dest_of_bits(bits: u16) -> CDest {
    if bits == 0 {
        CDest::Null
    } else if bits == 1 {
        CDest::RamA
    } else if bits == 2 {
        CDest::D
    } else if bits == 3 {
        CDest::DAndRamA
    } else if bits == 4 {
        CDest::A
    } else if bits == 5 {
        CDest::AAndRamA
    } else if bits == 6 {
        CDest::AAndD
    } else {
        CDest::AAndDAndRamA
    }
}

/// The jump condition named by instruction bits 2..0.
pub open spec fn jump_of_bits(bits: u16) -> CJump {
    if bits == 0 {
        CJump::Never
    } else if bits == 1 {
        CJump::GreaterThan
    } else if bits == 2 {
        CJump::EqualTo
    } else if bits == 3 {
        CJump::GreaterThanAndEqualTo
    } else if bits == 4 {
        CJump::LessThan
    } else if bits == 5 {
        CJump::NotEqualTo
    } else if bits == 6 {
        CJump::LessThanAndEqualTo
    } else {
        CJump::True
    }
}

/// Whether a ROM word can be represented by the decoded instruction set.
pub open spec fn decodable(inst: u16) -> bool {
    is_a_spec(inst) || (is_c_spec(inst) && comp_of_bits(comp_bits(inst)) is Some)
}

/// The decoded form of a representable ROM word.
pub open spec fn decode_spec(inst: u16) -> Instruction {
    if is_a_spec(inst) {
        Instruction::A(inst)
    } else {
        Instruction::C(
            comp_of_bits(comp_bits(inst)).unwrap(),
            dest_of_bits((inst & 0x38) >> 3u16),
            jump_of_bits(inst & 0x7),
        )
    }
}

impl Instruction {
    /// Decodes one program line; the line must denote a representable
    /// instruction word.
    pub fn new(instruction: &str) -> (r: Self)
        requires
            line_ok(instruction@),
            decodable(val16(parse_line(instruction@)) as u16),
        ensures
            r == decode_spec(val16(parse_line(instruction@)) as u16),
    {
        let inst = Self::decode_to_binary(instruction);
        if Self::is_a_instruction(inst) {
            Self::A(inst)
        } else {
            Self::C(
                Self::decode_c_comp(inst),
                Self::decode_c_dest(inst),
                Self::decode_c_jump(inst),
            )
        }
    }

    /// The instruction word a program line denotes, most significant
    /// character first.
    pub fn decode_to_binary(instruction: &str) -> (r: u16)
        requires
            line_ok(instruction@),
        ensures
            r == val16(parse_line(instruction@)),
    {
        let mut word: [bool; 16] = [false;16];
        for i in 0..16
            invariant
                forall|j: int|
                    0 <= j < i ==> (#[trigger] word@[j]) == (instruction@[15 - j] == '1'),
        {
            let c = instruction.get_char(15 - i);
            word[i] = c == '1';
        }
        proof {
            assert(word@ =~= parse_line(instruction@));
        }
        word_to_u16(word)
    }

    pub fn is_a_instruction(inst: u16) -> (r: bool)
        ensures
            r == is_a_spec(inst),
    {
        inst & 0b1000_0000_0000_0000 == 0b0000_0000_0000_0000
    }

    pub fn is_c_instruction(inst: u16) -> (r: bool)
        ensures
            r == is_c_spec(inst),
    {
        inst & 0b1110_0000_0000_0000 == 0b1110_0000_0000_0000
    }

    /// The computation field of a C-instruction; the pattern must be one
    /// of the 28 canonical ones.
    pub fn decode_c_comp(inst: u16) -> (r: CComp)
        requires
            comp_of_bits(comp_bits(inst)) is Some,
        ensures
            Some(r) == comp_of_bits(comp_bits(inst)),
    {
        let comp = (inst & 0b0001_1111_1100_0000) >> 6u16;
        proof {
            assert((inst & 0x1FC0) >> 6u16 < 0x80) by (bit_vector);
        }
        if comp == 0b0_101010 {
            CComp::Zero
        } else if comp == 0b0_111111 {
            CComp::One
        } else if comp == 0b0_111010 {
            CComp::MinusOne
        } else if comp == 0b0_001100 {
            CComp::D
        } else if comp == 0b0_110000 {
            CComp::A
        } else if comp == 0b1_110000 {
            CComp::M
        } else if comp == 0b0_001101 {
            CComp::NotD
        } else if comp == 0b0_110001 {
            CComp::NotA
        } else if comp == 0b1_110001 {
            CComp::NotM
        } else if comp == 0b0_001111 {
            CComp::MinusD
        } else if comp == 0b0_110011 {
            CComp::MinusA
        } else if comp == 0b1_110011 {
            CComp::MinusM
        } else if comp == 0b0_011111 {
            CComp::DPlusOne
        } else if comp == 0b0_110111 {
            CComp::APlusOne
        } else if comp == 0b1_110111 {
            CComp::MPlusOne
        } else if comp == 0b0_001110 {
            CComp::DMinusOne
        } else if comp == 0b0_110010 {
            CComp::AMinusOne
        } else if comp == 0b1_110010 {
            CComp::MMinusOne
        } else if comp == 0b0_000010 {
            CComp::DPlusA
        } else if comp == 0b1_000010 {
            CComp::DPlusM
        } else if comp == 0b0_010011 {
            CComp::DMinusA
        } else if comp == 0b1_010011 {
            CComp::DMinusM
        } else if comp == 0b0_000111 {
            CComp::AMinusD
        } else if comp == 0b1_000111 {
            CComp::MMinusD
        } else if comp == 0b0_000000 {
            CComp::DAndA
        } else if comp == 0b1_000000 {
            CComp::DAndM
        } else if comp == 0b0_010101 {
            CComp::DOrA
        } else {
            CComp::AOrM
        }
    }

    /// The destination field of a C-instruction.
    pub fn decode_c_dest(inst: u16) -> (r: CDest)
        ensures
            r == dest_of_bits((inst & 0x38) >> 3u16),
    {
        let dest = (inst & 0b0000_0000_0011_1000) >> 3u16;
        proof {
            assert((inst & 0x38) >> 3u16 < 8) by (bit_vector);
        }
        if dest == 0b000 {
            CDest::Null
        } else if dest == 0b001 {
            CDest::RamA
        } else if dest == 0b010 {
            CDest::D
        } else if dest == 0b011 {
            CDest::DAndRamA
        } else if dest == 0b100 {
            CDest::A
        } else if dest == 0b101 {
            CDest::AAndRamA
        } else if dest == 0b110 {
            CDest::AAndD
        } else {
            CDest::AAndDAndRamA
        }
    }

    /// The jump field of a C-instruction.
    pub fn decode_c_jump(inst: u16) -> (r: CJump)
        ensures
            r == jump_of_bits(inst & 0x7),
    {
        let jump = inst & 0b0000_0000_0000_0111;
        proof {
            assert(inst & 0x7 < 8) by (bit_vector);
        }
        if jump == 0b000 {
            CJump::Never
        } else if jump == 0b001 {
            CJump::GreaterThan
        } else if jump == 0b010 {
            CJump::EqualTo
        } else if jump == 0b011 {
            CJump::GreaterThanAndEqualTo
        } else if jump == 0b100 {
            CJump::LessThan
        } else if jump == 0b101 {
            CJump::NotEqualTo
        } else if jump == 0b110 {
            CJump::LessThanAndEqualTo
        } else {
            CJump::True
        }
    }

    /// Whether a program line denotes a representable instruction word.
    pub fn check_decodable(instruction: &str) -> (r: bool)
        requires
            line_ok(instruction@),
        ensures
            r == decodable(val16(parse_line(instruction@)) as u16),
    {
        let inst = Self::decode_to_binary(instruction);
        if Self::is_a_instruction(inst) {
            return true;
        }
        if !Self::is_c_instruction(inst) {
            return false;
        }
        let comp = (inst & 0b0001_1111_1100_0000) >> 6u16;
        comp == 0x2A || comp == 0x3F || comp == 0x3A || comp == 0x0C || comp == 0x30 || comp
            == 0x70 || comp == 0x0D || comp == 0x31 || comp == 0x71 || comp == 0x0F || comp == 0x33
            || comp == 0x73 || comp == 0x1F || comp == 0x37 || comp == 0x77 || comp == 0x0E || comp
            == 0x32 || comp == 0x72 || comp == 0x02 || comp == 0x42 || comp == 0x13 || comp == 0x53
            || comp == 0x07 || comp == 0x47 || comp == 0x00 || comp == 0x40 || comp == 0x15 || comp
            == 0x55
    }
}

} // verus!
