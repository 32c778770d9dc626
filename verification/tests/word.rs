//! The machine-word tests: unsigned and signed readout and the wrapping
//! two's-complement operators.
use hardware_simulator::word::Word;

#[test]
fn test_word() {
    let a = Word::new();
    let b = Word::from(0b0000_0000_0000_0101);

    assert_eq!(0b0000_0000_0000_0000, a.to_u16());
    assert_eq!(0b0000_0000_0000_0000, a.to_i16());
    assert_eq!(0b0000_0000_0000_0101, b.to_u16());
    assert_eq!(0b0000_0000_0000_0101, b.to_i16());

    let a = a.not();
    assert_eq!(0b1111_1111_1111_1111, a.to_u16());
    assert_eq!(-1, a.to_i16());

    let a = a.minus();
    assert_eq!(0b0000_0000_0000_0001, a.to_u16());
    assert_eq!(1, a.to_i16());

    let a = a.or(&b);
    assert_eq!(0b0000_0000_0000_0101, a.to_u16());
    assert_eq!(5, a.to_i16());

    let a = a.add(&b);
    assert_eq!(0b0000_0000_0000_1010, a.to_u16());
    assert_eq!(10, a.to_i16());

    let a = a.and(&b);
    assert_eq!(0b0000_0000_0000_0000, a.to_u16());
    assert_eq!(0, a.to_i16());

    let a = a.sub(&b);
    assert_eq!(0b1111_1111_1111_1011, a.to_u16());
    assert_eq!(-5, a.to_i16());
}

#[test]
fn test_word_extremes() {
    let min = Word::from(0x8000);
    assert_eq!(-32768, min.to_i16());
    assert_eq!(0x8000, min.minus().to_u16());

    let max = Word::from(0x7FFF);
    assert_eq!(32767, max.to_i16());
    assert_eq!(0x8001, max.minus().to_u16());

    let all = Word::from(0xFFFF);
    assert_eq!(0x0000, all.add(&Word::from(1)).to_u16());
}
