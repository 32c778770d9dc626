//! Whole-machine scenarios, run against all three backends, which must
//! agree: circuit-built, flat-array and instruction-decoding. Registers are not externally readable, so the scenarios make
//! the program store its results into the memory-mapped screen.
use hardware_simulator::emulator;
use hardware_simulator::hardware::{Computer, ComputerBuiltIn, Memory};
use hardware_simulator::helper::{u16_to_word, word_to_bit15, word_to_u16};
use hardware_simulator::nand2tetris::{get_instructions, Nand2Tetris};
use hardware_simulator::rom::{LoadError, ROM32K};

/// `@5 / D=A / @16384 / M=D`: after four steps the first screen word
/// holds 5, which shows A took the literal, D copied A and the program
/// counter walked the program.
fn store_five_program() -> Vec<&'static str> {
    vec![
        "0000000000000101", // @5
        "1110110000010000", // D=A
        "0100000000000000", // @16384
        "1110001100001000", // M=D
    ]
}

fn screen_word(screen: &[bool; 131072], word_index: usize) -> u16 {
    let mut v: u16 = 0;
    for i in 0..16 {
        if screen[16 * word_index + i] {
            v |= 1 << i;
        }
    }
    v
}

#[test]
fn test_store_five_gate_level() {
    let mut computer = Computer::new();
    computer.load_program(store_five_program()).unwrap();
    for _ in 0..4 {
        computer.step(false, 0);
    }
    let screen = computer.get_screen();
    assert_eq!(5, screen_word(&screen, 0));
}

#[test]
fn test_store_five_built_in() {
    let mut computer = ComputerBuiltIn::new();
    computer.load_program(store_five_program()).unwrap();
    for _ in 0..4 {
        computer.step(false, 0);
    }
    let screen = computer.get_screen();
    assert_eq!(5, screen_word(&screen, 0));
}

#[test]
fn test_store_five_emulator() {
    let mut computer = emulator::Computer::new();
    computer.load_program(store_five_program()).unwrap();
    for _ in 0..4 {
        computer.step(false, 0);
    }
    let screen = computer.get_screen();
    assert_eq!(5, screen_word(&screen, 0));
}

/// `@0 / M=-1 / @16384 / M=0`, then the value of RAM[0] is copied to the
/// second screen word: RAM[0] reads back 0xFFFF and the screen stayed
/// clear through the first four steps.
#[test]
fn test_ram_write_leaves_screen_alone() {
    let program = vec![
        "0000000000000000", // @0
        "1110111010001000", // M=-1
        "0100000000000000", // @16384
        "1110101010001000", // M=0
        "0000000000000000", // @0
        "1111110000010000", // D=M
        "0100000000000001", // @16385
        "1110001100001000", // M=D
    ];
    let mut builtin = ComputerBuiltIn::new();
    builtin.load_program(program.clone()).unwrap();
    let mut emu = emulator::Computer::new();
    emu.load_program(program).unwrap();
    for _ in 0..4 {
        builtin.step(false, 0);
        emu.step(false, 0);
    }
    // Screen untouched by the RAM write.
    assert!(builtin.get_screen().iter().all(|p| !p));
    assert!(emu.get_screen().iter().all(|p| !p));
    for _ in 0..4 {
        builtin.step(false, 0);
        emu.step(false, 0);
    }
    // RAM[0] held -1 (0xFFFF), now visible in screen word 1.
    assert_eq!(0xFFFF, screen_word(&builtin.get_screen(), 1));
    assert_eq!(0xFFFF, screen_word(&emu.get_screen(), 1));
}

/// After any number of steps, a reset step clears the program counter,
/// the registers and the RAM; the ROM is intact, so stepping again
/// re-runs the program from instruction 0.
#[test]
fn test_reset_clears_state_and_keeps_rom() {
    let mut computer = ComputerBuiltIn::new();
    computer.load_program(store_five_program()).unwrap();
    for _ in 0..7 {
        computer.step(false, 0);
    }
    assert_eq!(5, screen_word(&computer.get_screen(), 0));
    computer.step(true, 0);
    assert!(computer.get_screen().iter().all(|p| !p));
    for _ in 0..4 {
        computer.step(false, 0);
    }
    assert_eq!(5, screen_word(&computer.get_screen(), 0));

    let mut emu = emulator::Computer::new();
    emu.load_program(store_five_program()).unwrap();
    for _ in 0..7 {
        emu.step(false, 0);
    }
    emu.step(true, 0);
    assert!(emu.get_screen().iter().all(|p| !p));
    for _ in 0..4 {
        emu.step(false, 0);
    }
    assert_eq!(5, screen_word(&emu.get_screen(), 0));
}

/// The canonical fill program: stepped with a key pressed the screen
/// ends all black, stepped with no key it ends all white.
#[test]
fn test_fill_program() {
    let mut emu = emulator::Computer::new();
    emu.load_program(get_instructions()).unwrap();
    for _ in 0..200_000 {
        emu.step(false, 75);
    }
    assert!(emu.get_screen().iter().all(|p| *p));
    for _ in 0..200_000 {
        emu.step(false, 0);
    }
    assert!(emu.get_screen().iter().all(|p| !p));
}

/// A circuit-built demo system loads the same program and steps.
#[test]
fn test_demo_system_steps() {
    let mut system = Nand2Tetris::new();
    system.step(false, 0);
    let screen = system.get_screen();
    assert!(screen.iter().all(|p| !p));
}

/// A write to 20000 lands in the screen and is invisible to RAM and
/// keyboard reads; a write to 24576 reaches neither RAM nor screen.
#[test]
fn test_memory_routing() {
    let mut memory = Memory::new();
    let value = u16_to_word(0xBEEF);
    let key = u16_to_word(0);
    let at_20000 = word_to_bit15(u16_to_word(20000));
    memory.update(true, value, true, at_20000, key);
    memory.update(false, value, true, at_20000, key);
    assert_eq!(0xBEEF, word_to_u16(memory.get(false, at_20000)));
    let screen = memory.get_screen();
    let base = (20000 - 16384) * 16;
    for i in 0..16 {
        assert_eq!(0xBEEF & (1 << i) != 0, screen[base + i]);
    }
    // The RAM word with the same low bits is untouched.
    let aliased = word_to_bit15(u16_to_word(20000 & 0x3FFF));
    assert_eq!(0, word_to_u16(memory.get(false, aliased)));
    // The keyboard still reads the key code.
    let at_keyboard = word_to_bit15(u16_to_word(24576));
    assert_eq!(0, word_to_u16(memory.get(false, at_keyboard)));

    // A write to the keyboard address reaches neither RAM nor screen.
    let mut memory = Memory::new();
    memory.update(true, value, true, at_keyboard, u16_to_word(89));
    memory.update(false, value, true, at_keyboard, u16_to_word(89));
    assert!(memory.get_screen().iter().all(|p| !p));
    assert_eq!(0, word_to_u16(memory.get(false, word_to_bit15(u16_to_word(0)))));
    assert_eq!(0, word_to_u16(memory.get(false, word_to_bit15(u16_to_word(8192)))));
    assert_eq!(89, word_to_u16(memory.get(false, at_keyboard)));
}

#[test]
fn test_load_rejects_malformed_line() {
    let mut computer = ComputerBuiltIn::new();
    assert_eq!(Err(LoadError::MalformedLine), computer.load_program(vec!["101"]));
    assert_eq!(
        Err(LoadError::MalformedLine),
        computer.load_program(vec!["0000000000000000", "00000000000000x0"])
    );
    let mut rom = ROM32K::new();
    assert_eq!(Err(LoadError::MalformedLine), rom.load(vec!["11110000111100001"]));
}

#[test]
fn test_load_rejects_oversized_program() {
    let lines: Vec<&str> = std::iter::repeat("0000000000000000").take(32769).collect();
    let mut computer = ComputerBuiltIn::new();
    assert_eq!(Err(LoadError::CapacityExceeded), computer.load_program(lines.clone()));
    let mut emu = emulator::Computer::new();
    assert_eq!(Err(LoadError::CapacityExceeded), emu.load_program(lines));
}

#[test]
fn test_emulator_rejects_undecodable_instruction() {
    // Bit 15 set without bits 14 and 13 is neither an A- nor a
    // C-instruction for the decoding backend; a circuit-built ROM takes
    // any bit pattern.
    let mut emu = emulator::Computer::new();
    assert_eq!(
        Err(LoadError::UnsupportedInstruction),
        emu.load_program(vec!["1010101010101010"])
    );
    let mut rom = ROM32K::new();
    assert_eq!(Ok(()), rom.load(vec!["1010101010101010"]));
}

#[test]
fn test_update_screen_pixels_drain() {
    let mut emu = emulator::Computer::new();
    let program = vec![
        "0100000000000000", // @16384
        "1110111010001000", // M=-1
    ];
    emu.load_program(program).unwrap();
    emu.step(false, 0);
    emu.step(false, 0);
    let pixels = emu.get_update_screen_pixels();
    assert_eq!(16, pixels.len());
    for (i, &(x, y, color)) in pixels.iter().enumerate() {
        assert_eq!(i as i32, x);
        assert_eq!(0, y);
        assert!(color);
    }
    assert_eq!(0, emu.get_update_screen_pixels().len());
}

/// The canonical program itself: 37 lines, the keyboard read first, and
/// the key test branching to the blacken path on a nonzero key.
#[test]
fn test_fill_program_lines() {
    let lines = get_instructions();
    assert_eq!(37, lines.len());
    assert_eq!("0110000000000000", lines[0]); // @24576, the keyboard
    assert_eq!("1111110000010000", lines[1]); // D=M
    assert_eq!("1110001100000101", lines[3]); // D;JNE: key pressed -> black
    assert_eq!("1110101010000111", lines[36]); // 0;JMP back to the poll
    for line in &lines {
        assert_eq!(16, line.len());
        assert!(line.chars().all(|c| c == '0' || c == '1'));
    }
}
