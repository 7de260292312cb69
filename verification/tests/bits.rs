use lib_rv32::bits;

#[test]
fn bit_slice() {
    let x = 0b1011;

    assert_eq!(0b1, bits::bit_slice(x, 3, 3));
    assert_eq!(0b0, bits::bit_slice(x, 2, 2));
    assert_eq!(0b1, bits::bit_slice(x, 1, 1));
    assert_eq!(0b1, bits::bit_slice(x, 0, 0));

    assert_eq!(0b10, bits::bit_slice(x, 3, 2));
    assert_eq!(0b101, bits::bit_slice(x, 3, 1));
    assert_eq!(0b1011, bits::bit_slice(x, 3, 0));
    assert_eq!(0b011, bits::bit_slice(x, 2, 0));
    assert_eq!(0b11, bits::bit_slice(x, 1, 0));
}

#[test]
fn bit_concat() {
    assert_eq!(0b1101, bits::bit_concat(&[(0b11, 2), (0b01, 2)]));
}

#[test]
fn bit_extend() {
    assert_eq!(0b1111, bits::bit_extend(1, 4));
    assert_eq!(0b0, bits::bit_extend(0, 32));
}

#[test]
fn bit_extend_full_width() {
    assert_eq!(0xFFFF_FFFF, bits::bit_extend(1, 32));
    assert_eq!(0, bits::bit_extend(0, 4));
}
