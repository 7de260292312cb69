use lib_rv32::error::AssemblerError;
use lib_rv32::match_opcode;
use lib_rv32::match_register;
use lib_rv32::parse_imm;
use lib_rv32::LabelTable;

#[test]
fn test_parse_int() {
    let labels = LabelTable::new();
    assert_eq!(17, parse_imm("17", &labels, 0).unwrap());
    assert_eq!(17, parse_imm("017", &labels, 0).unwrap());
    assert_eq!(-21, parse_imm("-21", &labels, 0).unwrap() as i32);
    assert_eq!(0x16, parse_imm("0x16", &labels, 0).unwrap());
    assert_eq!(0x16, parse_imm("0x0016", &labels, 0).unwrap());
}

#[test]
fn test_parse_imm() {
    let mut labels = LabelTable::new();
    labels.insert("loop", 0);
    let pc = 4;

    assert_eq!(-4, parse_imm("loop", &labels, pc).unwrap() as i32);
    assert_eq!(-24, parse_imm("-24", &labels, pc).unwrap() as i32);
    assert_eq!(16, parse_imm("16", &labels, pc).unwrap());
}

#[test]
fn assembler_test_parse_imm() {
    let mut labels = LabelTable::new();
    labels.insert("loop", 0);
    let pc = 4;

    assert_eq!(-4, parse_imm("loop", &labels, pc).unwrap() as i32);
    assert_eq!(-24, parse_imm("-24", &labels, pc).unwrap() as i32);
    assert_eq!(16, parse_imm("16", &labels, pc).unwrap());
}

#[test]
fn parse_imm_unknown_token() {
    let labels = LabelTable::new();
    assert_eq!(
        Err(AssemblerError::InvalidImmediateError("oops".to_string())),
        parse_imm("oops", &labels, 0)
    );
}

#[test]
fn parse_imm_uppercase_hex_prefix() {
    let labels = LabelTable::new();
    assert_eq!(0x2A, parse_imm("0X2a", &labels, 0).unwrap());
}

#[test]
fn parse_imm_label_is_case_sensitive() {
    let mut labels = LabelTable::new();
    labels.insert("Loop", 8);
    assert_eq!(8, parse_imm("Loop", &labels, 0).unwrap());
    assert_eq!(
        Err(AssemblerError::InvalidImmediateError("loop".to_string())),
        parse_imm("loop", &labels, 0)
    );
}

#[test]
fn match_opcode_known_mnemonics() {
    assert_eq!(0b0110011, match_opcode("add").unwrap());
    assert_eq!(0b0010011, match_opcode("addi").unwrap());
    assert_eq!(0b0110111, match_opcode("lui").unwrap());
    assert_eq!(0b0010111, match_opcode("auipc").unwrap());
    assert_eq!(0b1101111, match_opcode("jal").unwrap());
    assert_eq!(0b1100111, match_opcode("jalr").unwrap());
    assert_eq!(0b1100011, match_opcode("beq").unwrap());
    assert_eq!(0b1100011, match_opcode("bltu").unwrap());
    assert_eq!(0b0000011, match_opcode("lw").unwrap());
    assert_eq!(0b0100011, match_opcode("sw").unwrap());
}

#[test]
fn match_opcode_unknown_mnemonic() {
    assert_eq!(
        Err(AssemblerError::InvalidOperationError("frobnicate".to_string())),
        match_opcode("frobnicate")
    );
}

#[test]
fn match_register_numeric_and_abi() {
    assert_eq!(0, match_register("x0").unwrap());
    assert_eq!(5, match_register("x5").unwrap());
    assert_eq!(31, match_register("x31").unwrap());
    assert_eq!(0, match_register("zero").unwrap());
    assert_eq!(1, match_register("ra").unwrap());
    assert_eq!(2, match_register("sp").unwrap());
    assert_eq!(5, match_register("t0").unwrap());
    assert_eq!(8, match_register("s0").unwrap());
    assert_eq!(10, match_register("a0").unwrap());
    assert_eq!(31, match_register("t6").unwrap());
}

#[test]
fn match_register_rejects_out_of_range() {
    assert_eq!(
        Err(AssemblerError::NoSuchRegisterError("x32".to_string())),
        match_register("x32")
    );
    assert_eq!(
        Err(AssemblerError::NoSuchRegisterError("q7".to_string())),
        match_register("q7")
    );
}
