use lib_rv32::assemble_ir;
use lib_rv32::constants::FUNC3_BEQ;
use lib_rv32::constants::FUNC3_BNE;
use lib_rv32::encode::encode_b_imm;
use lib_rv32::encode::encode_func3;
use lib_rv32::encode::encode_i_imm;
use lib_rv32::encode::encode_j_imm;
use lib_rv32::encode::encode_rs1;
use lib_rv32::encode::encode_rs2;
use lib_rv32::error::AssemblerError;
use lib_rv32::parse_labels;
use lib_rv32::LabelTable;

const ADDI_X5_X6_0: u32 = 0x00030293;
const ADDI_X0_X0_17: u32 = 0x01100013;
const ADDI_X5_X6_NEG_12: u32 = 0xff430293;
const ADDI_X5_X6_NEG_2048: u32 = 0x80030293;
const LW_X5_0_X5: u32 = 0x0002a283;
const AUIPC_X5_4: u32 = 0x00004297;
const LUI_X5_4: u32 = 0x000042b7;
const BEQ_X5_X5_12: u32 = 0x00528663;
const BNE_X5_X5_76: u32 = 0x04529663;
const BLT_X5_X5_72: u32 = 0x0452c463;
const JAL_X0_NEG_4: u32 = 0xffdff06f;
const JAL_X0_NEG_8: u32 = 0xff9ff06f;
const JAL_X0_16: u32 = 0x0100006f;
const BNE_X0_X5_NEG_4: u32 = 0xfe501ee3;

fn ir(line: &str) -> u32 {
    let mut labels = LabelTable::new();
    assemble_ir(line, &mut labels, 0).unwrap()[0]
}

#[test]
fn test_assemble_copious_commas() {
    assert_eq!(ADDI_X5_X6_0, ir("addi,, t0,,, x6,, 0,,,"));
}

#[test]
fn test_assemble_no_commas() {
    assert_eq!(ADDI_X5_X6_0, ir("addi t0 x6 0"));
}

#[test]
fn test_assemble_uppercase() {
    assert_eq!(ADDI_X5_X6_0, ir("ADDI T0, X6, 0"));
}

#[test]
fn test_assemble_random_case() {
    assert_eq!(ADDI_X5_X6_0, ir("aDdI t0, X6, 0"));
}

#[test]
fn test_assemble_lower_case() {
    assert_eq!(ADDI_X5_X6_0, ir("addi t0, x6, 0"));
}

#[test]
fn test_assemble_i_type() {
    assert_eq!(ADDI_X5_X6_0, ir("addi t0, x6, 0"));
    assert_eq!(ADDI_X0_X0_17, ir("addi zero, x0, 17"));
    assert_eq!(ADDI_X5_X6_NEG_12, ir("addi t0, t1, -12"));
    assert_eq!(LW_X5_0_X5, ir("lw x5, 0(x5)"));
}

#[test]
fn test_assemble_u_type() {
    assert_eq!(AUIPC_X5_4, ir("auipc x5, 4"));
    assert_eq!(LUI_X5_4, ir("lui x5, 4"));
}

#[test]
fn test_assemble_b_type() {
    assert_eq!(BEQ_X5_X5_12, ir("beq x5, x5, 12"));
    assert_eq!(BNE_X5_X5_76, ir("bne t0, t0, 76"));
}

#[test]
fn assembler_test_assemble_copious_commas() {
    assert_eq!(ADDI_X5_X6_0, ir("addi,, t0,,, x6,, 0,,,"));
}

#[test]
fn assembler_test_assemble_no_commas() {
    assert_eq!(ADDI_X5_X6_0, ir("addi t0 x6 0"));
}

#[test]
fn assembler_test_assemble_uppercase() {
    assert_eq!(ADDI_X5_X6_0, ir("ADDI T0, X6, 0"));
}

#[test]
fn assembler_test_assemble_random_case() {
    assert_eq!(ADDI_X5_X6_0, ir("aDdI t0, X6, 0"));
}

#[test]
fn assembler_test_assemble_lower_case() {
    assert_eq!(ADDI_X5_X6_0, ir("addi t0, x6, 0"));
}

#[test]
fn assembler_test_assemble_i_type() {
    assert_eq!(ADDI_X5_X6_0, ir("addi t0, x6, 0"));
    assert_eq!(ADDI_X0_X0_17, ir("addi zero, x0, 17"));
    assert_eq!(ADDI_X5_X6_NEG_12, ir("addi t0, t1, -12"));
    assert_eq!(LW_X5_0_X5, ir("lw x5, 0(x5)"));
}

#[test]
fn assembler_test_assemble_u_type() {
    assert_eq!(AUIPC_X5_4, ir("auipc x5, 4"));
    assert_eq!(LUI_X5_4, ir("lui x5, 4"));
}

#[test]
fn assembler_test_assemble_b_type() {
    assert_eq!(BEQ_X5_X5_12, ir("beq x5, x5, 12"));
    assert_eq!(BNE_X5_X5_76, ir("bne x5, x5, 76"));
}

#[test]
fn test_parse_labels() {
    let program = "
        init:
            jal ra, fun
            jal x0, end

        fun:
            addi t0, t0, 1
            jalr x0, 0(ra)

        end:
    ";
    let labels = parse_labels(program).unwrap();

    assert_eq!(0, labels.get("init").unwrap());
    assert_eq!(4 * 4, labels.get("end").unwrap());
}

#[test]
fn test_assemble_with_forward_labels() {
    let program = "
        init:
            jal ra, fun
            jal x0, end

        fun:
            addi t0, t0, 1
            jalr x0, ra, 0

        end:
    ";

    lib_rv32::assemble_program(program).unwrap();
}

#[test]
fn test_assemble_li() {
    let mut labels = LabelTable::new();
    let psuedo = assemble_ir("li t0, 5", &mut labels, 0).unwrap()[0];
    let base = assemble_ir("addi t0, x0, 5", &mut labels, 0).unwrap()[0];
    assert_eq!(base, psuedo);
}

#[test]
fn test_assemble_mv() {
    let mut labels = LabelTable::new();
    let psuedo = assemble_ir("mv t0, t1", &mut labels, 0).unwrap()[0];
    let base = assemble_ir("add t0, t1, x0", &mut labels, 0).unwrap()[0];
    assert_eq!(base, psuedo);
}

#[test]
fn assemble_snez_is_sltu() {
    let mut labels = LabelTable::new();
    let psuedo = assemble_ir("snez t0, t1", &mut labels, 0).unwrap()[0];
    let base = assemble_ir("sltu t0, x0, t1", &mut labels, 0).unwrap()[0];
    assert_eq!(base, psuedo);
}

#[test]
fn assemble_li_large_immediate() {
    let mut labels = LabelTable::new();
    let words = assemble_ir("li t0, 0x12345678", &mut labels, 0).unwrap();
    assert_eq!(2, words.len());
    let lui = assemble_ir("lui t0, 0x12345", &mut labels, 0).unwrap()[0];
    let addi = assemble_ir("addi t0, t0, 0x678", &mut labels, 4).unwrap()[0];
    assert_eq!(vec![lui, addi], words);
}

#[test]
fn test_assemble_with_label() {
    let mut labels = LabelTable::new();
    let words = assemble_ir("loop: lui x5, 4", &mut labels, 0).unwrap();
    assert_eq!(LUI_X5_4, words[0]);
    assert_eq!(0, labels.get("loop").unwrap());

    let actual = assemble_ir("jal x0, loop", &mut labels, 4).unwrap()[0];
    assert_eq!(JAL_X0_NEG_4, actual);

    let actual = assemble_ir("bne x0, t0, loop", &mut labels, 4).unwrap()[0];
    assert_eq!(BNE_X0_X5_NEG_4, actual);
}

#[test]
fn assemble_label_only_line_emits_nothing() {
    let mut labels = LabelTable::new();
    let words = assemble_ir("here:", &mut labels, 12).unwrap();
    assert_eq!(0, words.len());
    assert_eq!(12, labels.get("here").unwrap());
}

#[test]
fn assemble_too_many_tokens() {
    let mut labels = LabelTable::new();
    assert_eq!(
        Err(AssemblerError::TooManyTokensError),
        assemble_ir("addi t0, t1, t2, t3, t4", &mut labels, 0)
    );
}

#[test]
fn assemble_too_few_tokens() {
    let mut labels = LabelTable::new();
    assert_eq!(
        Err(AssemblerError::TooFewTokensError),
        assemble_ir("addi t0, t1", &mut labels, 0)
    );
}

#[test]
fn assemble_bad_register() {
    let mut labels = LabelTable::new();
    assert_eq!(
        Err(AssemblerError::NoSuchRegisterError("q9".to_string())),
        assemble_ir("addi q9, x0, 1", &mut labels, 0)
    );
}

#[test]
fn assemble_bad_mnemonic() {
    let mut labels = LabelTable::new();
    assert_eq!(
        Err(AssemblerError::InvalidOperationError("addq".to_string())),
        assemble_ir("addq t0, t1, t2", &mut labels, 0)
    );
}

#[test]
fn assemble_bad_immediate() {
    let mut labels = LabelTable::new();
    assert_eq!(
        Err(AssemblerError::InvalidImmediateError("nowhere".to_string())),
        assemble_ir("jal ra, nowhere", &mut labels, 0)
    );
}

#[test]
fn test_encode_b_imm() {
    assert_eq!(BLT_X5_X5_72, encode_b_imm(72) | BLT_X5_X5_72);
    assert_eq!(BNE_X5_X5_76, encode_b_imm(76) | BNE_X5_X5_76);
}

#[test]
fn test_encode_i_imm() {
    assert_eq!(ADDI_X0_X0_17, encode_i_imm(17) | ADDI_X0_X0_17);
    let i: i32 = -2048;
    assert_eq!(
        ADDI_X5_X6_NEG_2048,
        encode_i_imm(i as u32) | ADDI_X5_X6_NEG_2048
    );
}

#[test]
fn test_encode_j_imm() {
    let i: i32 = -4;
    assert_eq!(JAL_X0_NEG_4, encode_j_imm(i as u32) | JAL_X0_NEG_4);
    let i: i32 = -8;
    assert_eq!(JAL_X0_NEG_8, encode_j_imm(i as u32) | JAL_X0_NEG_8);
    assert_eq!(JAL_X0_16, encode_j_imm(16) | JAL_X0_16);
}

#[test]
fn test_encode_rs1() {
    assert_eq!(BEQ_X5_X5_12, encode_rs1(5) | BEQ_X5_X5_12);
    assert_eq!(BNE_X5_X5_76, encode_rs1(5) | BNE_X5_X5_76);
}

#[test]
fn test_encode_rs2() {
    assert_eq!(BNE_X0_X5_NEG_4, encode_rs2(5) | BNE_X0_X5_NEG_4);
}

#[test]
fn test_encode_func3() {
    assert_eq!(BEQ_X5_X5_12, encode_func3(FUNC3_BEQ) | BEQ_X5_X5_12);
    assert_eq!(BNE_X5_X5_76, encode_func3(FUNC3_BNE) | BNE_X5_X5_76);
}

#[test]
fn assembler_test_encode_b_imm() {
    assert_eq!(BLT_X5_X5_72, encode_b_imm(72) | BLT_X5_X5_72);
    assert_eq!(BNE_X5_X5_76, encode_b_imm(76) | BNE_X5_X5_76);
}

#[test]
fn assembler_test_encode_i_imm() {
    assert_eq!(ADDI_X0_X0_17, encode_i_imm(17) | ADDI_X0_X0_17);
    assert_eq!(
        ADDI_X5_X6_NEG_2048,
        encode_i_imm(-(2048 as i32) as u32) | ADDI_X5_X6_NEG_2048
    );
}

#[test]
fn assembler_test_encode_rs1() {
    assert_eq!(BEQ_X5_X5_12, encode_rs1(5) | BEQ_X5_X5_12);
    assert_eq!(BNE_X5_X5_76, encode_rs1(5) | BNE_X5_X5_76);
}

#[test]
fn assembler_test_encode_rs2() {
    assert_eq!(BEQ_X5_X5_12, encode_rs2(5) | BEQ_X5_X5_12);
    assert_eq!(BNE_X5_X5_76, encode_rs2(5) | BNE_X5_X5_76);
}

#[test]
fn assembler_test_encode_func3() {
    assert_eq!(BEQ_X5_X5_12, encode_func3(FUNC3_BEQ) | BEQ_X5_X5_12);
    assert_eq!(BNE_X5_X5_76, encode_func3(FUNC3_BNE) | BNE_X5_X5_76);
}

#[test]
fn assemble_buf_resolves_backward_labels() {
    let text = "loop: addi t0, t0, 1\nbne t0, x0, loop";
    let words = lib_rv32::assemble_buf(text).unwrap();
    assert_eq!(2, words.len());
    assert_eq!(words, lib_rv32::assemble_program(text).unwrap());
}

#[test]
fn assemble_buf_rejects_forward_labels() {
    let text = "jal x0, end\nend:";
    assert_eq!(
        Err(AssemblerError::InvalidImmediateError("end".to_string())),
        lib_rv32::assemble_buf(text)
    );
    assert!(lib_rv32::assemble_program(text).is_ok());
}
