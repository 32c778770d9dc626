//! The clocked-storage tests: the two-phase protocol of the flip-flop,
//! the latch and the register, the address decoding of every RAM level,
//! and the program counter.
use hardware_simulator::boolean_arithmetic::add16;
use hardware_simulator::helper::{u16_to_12bit, u16_to_14bit, u16_to_9bit, u16_to_word, u8_to_3bit, u8_to_6bit};
use hardware_simulator::sequential_circuit::{Bit, Register, DFF, PC, RAM16K, RAM4K, RAM512, RAM64, RAM8};

#[test]
fn test_dff() {
    let mut dff = DFF::new();
    let mut clk = true;

    dff.update(clk, true);
    assert_eq!(false, dff.get(clk));
    clk = !clk;

    dff.update(clk, false);
    assert_eq!(true, dff.get(clk));
    clk = !clk;

    dff.update(clk, false);
    assert_eq!(true, dff.get(clk));
    clk = !clk;

    dff.update(clk, true);
    assert_eq!(false, dff.get(clk));
}

#[test]
fn test_bit() {
    let mut bit = Bit::new();
    let mut clk = true;

    bit.update(clk, true, true);
    assert_eq!(false, bit.get(clk));
    clk = !clk;

    bit.update(clk, false, false);
    assert_eq!(true, bit.get(clk));
    clk = !clk;

    bit.update(clk, false, false);
    assert_eq!(true, bit.get(clk));
    clk = !clk;

    bit.update(clk, false, true);
    assert_eq!(true, bit.get(clk));
    clk = !clk;

    bit.update(clk, false, true);
    assert_eq!(true, bit.get(clk));
    clk = !clk;

    bit.update(clk, true, false);
    assert_eq!(false, bit.get(clk));
}

#[test]
fn test_register() {
    let mut register = Register::new();
    let mut clk = true;

    let word_i = u16_to_word(0b1111_1111_1111_1111);
    let word_o = u16_to_word(0b0000_0000_0000_0000);

    let mut load = true;

    register.update(clk, word_i, load);
    assert_eq!(word_o, register.get(clk));
    clk = !clk;

    load = false;

    register.update(clk, word_o, load);
    assert_eq!(word_i, register.get(clk));
    clk = !clk;

    register.update(clk, word_o, load);
    assert_eq!(word_i, register.get(clk));
    clk = !clk;

    load = true;

    register.update(clk, word_o, load);
    assert_eq!(word_i, register.get(clk));
    clk = !clk;

    register.update(clk, word_o, load);
    assert_eq!(word_i, register.get(clk));
    clk = !clk;

    load = false;

    register.update(clk, word_i, load);
    assert_eq!(word_o, register.get(clk));
}

#[test]
fn test_ram8() {
    let mut ram = RAM8::new();
    let mut clk = true;

    let word_i = u16_to_word(0b1100_1010_0011_0101);
    let word_o = u16_to_word(0b0011_0101_1100_1010);
    let word_0 = u16_to_word(0b0000_0000_0000_0000);

    let mut address = u8_to_3bit(0b000);
    let mut load = true;

    ram.update(clk, word_i, load, address);
    assert_eq!(word_0, ram.get(clk, address));
    clk = !clk;

    load = false;

    ram.update(clk, word_i, load, address);
    assert_eq!(word_i, ram.get(clk, address));
    clk = !clk;

    ram.update(clk, word_o, load, address);
    assert_eq!(word_i, ram.get(clk, address));
    clk = !clk;

    load = true;

    ram.update(clk, word_o, load, address);
    assert_eq!(word_i, ram.get(clk, address));
    clk = !clk;

    ram.update(clk, word_o, load, address);
    assert_eq!(word_i, ram.get(clk, address));
    clk = !clk;

    ram.update(clk, word_o, load, address);
    assert_eq!(word_o, ram.get(clk, address));
    clk = !clk;

    address = u8_to_3bit(0b001);

    ram.update(clk, word_o, load, address);
    assert_eq!(word_0, ram.get(clk, address));
    clk = !clk;

    load = false;

    ram.update(clk, word_i, load, address);
    assert_eq!(word_o, ram.get(clk, address));
    clk = !clk;

    ram.update(clk, word_i, load, address);
    assert_eq!(word_o, ram.get(clk, address));
    clk = !clk;

    load = true;

    ram.update(clk, word_i, load, address);
    assert_eq!(word_o, ram.get(clk, address));
    clk = !clk;

    ram.update(clk, word_i, load, address);
    assert_eq!(word_o, ram.get(clk, address));
    clk = !clk;

    ram.update(clk, word_i, load, address);
    assert_eq!(word_i, ram.get(clk, address));
}

#[test]
fn test_ram64() {
    let mut ram = RAM64::new();
    let mut clk = true;

    let word_i = u16_to_word(0b1100_1010_0011_0101);
    let word_o = u16_to_word(0b0011_0101_1100_1010);
    let word_0 = u16_to_word(0b0000_0000_0000_0000);

    let mut address = u8_to_6bit(0b00_0000);
    let mut load = true;

    ram.update(clk, word_i, load, address);
    assert_eq!(word_0, ram.get(clk, address));
    clk = !clk;

    load = false;

    ram.update(clk, word_o, load, address);
    assert_eq!(word_i, ram.get(clk, address));
    clk = !clk;

    ram.update(clk, word_o, load, address);
    assert_eq!(word_i, ram.get(clk, address));
    clk = !clk;

    load = true;

    ram.update(clk, word_o, load, address);
    assert_eq!(word_i, ram.get(clk, address));
    clk = !clk;

    ram.update(clk, word_o, load, address);
    assert_eq!(word_i, ram.get(clk, address));
    clk = !clk;

    ram.update(clk, word_o, load, address);
    assert_eq!(word_o, ram.get(clk, address));
    clk = !clk;

    address = u8_to_6bit(0b00_1001);

    ram.update(clk, word_o, load, address);
    assert_eq!(word_0, ram.get(clk, address));
    clk = !clk;

    load = false;

    ram.update(clk, word_i, load, address);
    assert_eq!(word_o, ram.get(clk, address));
    clk = !clk;

    ram.update(clk, word_i, load, address);
    assert_eq!(word_o, ram.get(clk, address));
    clk = !clk;

    load = true;

    ram.update(clk, word_i, load, address);
    assert_eq!(word_o, ram.get(clk, address));
    clk = !clk;

    ram.update(clk, word_i, load, address);
    assert_eq!(word_o, ram.get(clk, address));
    clk = !clk;

    ram.update(clk, word_i, load, address);
    assert_eq!(word_i, ram.get(clk, address));
}

#[test]
fn test_ram512() {
    let mut ram = RAM512::new();
    let mut clk = true;

    let word_i = u16_to_word(0b1100_1010_0011_0101);
    let word_o = u16_to_word(0b0011_0101_1100_1010);
    let word_0 = u16_to_word(0b0000_0000_0000_0000);

    let mut address = u16_to_9bit(0b0_0000_0000);
    let mut load = true;

    ram.update(clk, word_i, load, address);
    assert_eq!(word_0, ram.get(clk, address));
    clk = !clk;

    load = false;

    ram.update(clk, word_o, load, address);
    assert_eq!(word_i, ram.get(clk, address));
    clk = !clk;

    ram.update(clk, word_o, load, address);
    assert_eq!(word_i, ram.get(clk, address));
    clk = !clk;

    load = true;

    ram.update(clk, word_o, load, address);
    assert_eq!(word_i, ram.get(clk, address));
    clk = !clk;

    ram.update(clk, word_o, load, address);
    assert_eq!(word_i, ram.get(clk, address));
    clk = !clk;

    ram.update(clk, word_o, load, address);
    assert_eq!(word_o, ram.get(clk, address));
    clk = !clk;

    address = u16_to_9bit(0b1_0010_0100);

    ram.update(clk, word_o, load, address);
    assert_eq!(word_0, ram.get(clk, address));
    clk = !clk;

    load = false;

    ram.update(clk, word_i, load, address);
    assert_eq!(word_o, ram.get(clk, address));
    clk = !clk;

    ram.update(clk, word_i, load, address);
    assert_eq!(word_o, ram.get(clk, address));
    clk = !clk;

    load = true;

    ram.update(clk, word_i, load, address);
    assert_eq!(word_o, ram.get(clk, address));
    clk = !clk;

    ram.update(clk, word_i, load, address);
    assert_eq!(word_o, ram.get(clk, address));
    clk = !clk;

    ram.update(clk, word_i, load, address);
    assert_eq!(word_i, ram.get(clk, address));
}

#[test]
fn test_ram4k() {
    let mut ram = RAM4K::new();
    let mut clk = true;

    let word_i = u16_to_word(0b1100_1010_0011_0101);
    let word_o = u16_to_word(0b0011_0101_1100_1010);
    let word_0 = u16_to_word(0b0000_0000_0000_0000);

    let mut address = u16_to_12bit(0b0000_0000_0000);
    let mut load = true;

    ram.update(clk, word_i, load, address);
    assert_eq!(word_0, ram.get(clk, address));
    clk = !clk;

    load = false;

    ram.update(clk, word_o, load, address);
    assert_eq!(word_i, ram.get(clk, address));
    clk = !clk;

    ram.update(clk, word_o, load, address);
    assert_eq!(word_i, ram.get(clk, address));
    clk = !clk;

    load = true;

    ram.update(clk, word_o, load, address);
    assert_eq!(word_i, ram.get(clk, address));
    clk = !clk;

    ram.update(clk, word_o, load, address);
    assert_eq!(word_i, ram.get(clk, address));
    clk = !clk;

    ram.update(clk, word_o, load, address);
    assert_eq!(word_o, ram.get(clk, address));
    clk = !clk;

    address = u16_to_12bit(0b0010_0100_1001);

    ram.update(clk, word_o, load, address);
    assert_eq!(word_0, ram.get(clk, address));
    clk = !clk;

    load = false;

    ram.update(clk, word_i, load, address);
    assert_eq!(word_o, ram.get(clk, address));
    clk = !clk;

    ram.update(clk, word_i, load, address);
    assert_eq!(word_o, ram.get(clk, address));
    clk = !clk;

    load = true;

    ram.update(clk, word_i, load, address);
    assert_eq!(word_o, ram.get(clk, address));
    clk = !clk;

    ram.update(clk, word_i, load, address);
    assert_eq!(word_o, ram.get(clk, address));
    clk = !clk;

    ram.update(clk, word_i, load, address);
    assert_eq!(word_i, ram.get(clk, address));
}

#[test]
fn test_ram16k() {
    let mut ram = RAM16K::new();
    let mut clk = true;

    let word_i = u16_to_word(0b1100_1010_0011_0101);
    let word_o = u16_to_word(0b0011_0101_1100_1010);
    let word_0 = u16_to_word(0b0000_0000_0000_0000);

    let mut address = u16_to_14bit(0b00_0000_0000_0000);
    let mut load = true;

    ram.update(clk, word_i, load, address);
    assert_eq!(word_0, ram.get(clk, address));
    clk = !clk;

    load = false;

    ram.update(clk, word_o, load, address);
    assert_eq!(word_i, ram.get(clk, address));
    clk = !clk;

    ram.update(clk, word_o, load, address);
    assert_eq!(word_i, ram.get(clk, address));
    clk = !clk;

    load = true;

    ram.update(clk, word_o, load, address);
    assert_eq!(word_i, ram.get(clk, address));
    clk = !clk;

    ram.update(clk, word_o, load, address);
    assert_eq!(word_i, ram.get(clk, address));
    clk = !clk;

    ram.update(clk, word_o, load, address);
    assert_eq!(word_o, ram.get(clk, address));
    clk = !clk;

    address = u16_to_14bit(0b00_1001_0010_0100);

    ram.update(clk, word_o, load, address);
    assert_eq!(word_0, ram.get(clk, address));
    clk = !clk;

    load = false;

    ram.update(clk, word_i, load, address);
    assert_eq!(word_o, ram.get(clk, address));
    clk = !clk;

    ram.update(clk, word_i, load, address);
    assert_eq!(word_o, ram.get(clk, address));
    clk = !clk;

    load = true;

    ram.update(clk, word_i, load, address);
    assert_eq!(word_o, ram.get(clk, address));
    clk = !clk;

    ram.update(clk, word_i, load, address);
    assert_eq!(word_o, ram.get(clk, address));
    clk = !clk;

    ram.update(clk, word_i, load, address);
    assert_eq!(word_i, ram.get(clk, address));
}

#[test]
fn test_pc() {
    let mut pc = PC::new();
    let mut clk = true;

    let word0 = u16_to_word(0b0000_0000_0000_0000);
    let word1 = u16_to_word(0b0000_0000_0000_0001);
    let input = u16_to_word(0b0100_1001_0010_0100);

    let mut inc = true;
    let mut load = false;
    let mut reset = false;

    pc.update(clk, word0, load, inc, reset);
    assert_eq!(word0, pc.get(clk));
    clk = !clk;

    pc.update(clk, word0, load, inc, reset);
    assert_eq!(add16(word0, word1), pc.get(clk));
    clk = !clk;

    pc.update(clk, word0, load, inc, reset);
    assert_eq!(add16(word0, word1), pc.get(clk));
    clk = !clk;

    pc.update(clk, word0, load, inc, reset);
    assert_eq!(add16(add16(word0, word1), word1), pc.get(clk));
    clk = !clk;

    inc = false;
    reset = true;

    pc.update(clk, word0, load, inc, reset);
    assert_eq!(add16(word1, word1), pc.get(clk));
    clk = !clk;

    load = true;
    reset = false;

    pc.update(clk, input, load, inc, reset);
    assert_eq!(word0, pc.get(clk));
    clk = !clk;

    pc.update(clk, input, load, inc, reset);
    assert_eq!(word0, pc.get(clk));
    clk = !clk;

    load = false;

    pc.update(clk, word0, load, inc, reset);
    assert_eq!(input, pc.get(clk));
    clk = !clk;

    pc.update(clk, word0, load, inc, reset);
    assert_eq!(input, pc.get(clk));
    clk = !clk;

    pc.update(clk, word0, load, inc, reset);
    assert_eq!(input, pc.get(clk));
}
