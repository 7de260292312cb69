use lib_rv32::constants::{
    FUNC3_ADD_SUB, FUNC3_AND, FUNC3_BEQ, FUNC3_BGEU, FUNC3_BLT, FUNC3_BNE, FUNC3_LB, FUNC3_LBU,
    FUNC3_LH, FUNC3_LHU, FUNC3_LW, FUNC3_OR, FUNC3_SB, FUNC3_SH, FUNC3_SLL, FUNC3_SLT, FUNC3_SLTU,
    FUNC3_SR, FUNC3_SW, FUNC3_XOR, OPCODE_AUIPC, OPCODE_BRANCH, OPCODE_JAL, OPCODE_JALR,
    OPCODE_LOAD, OPCODE_LUI, OPCODE_STORE,
};
use lib_rv32::decode::{
    decode_b_imm, decode_func3, decode_i_imm, decode_j_imm, decode_opcode, decode_rd, decode_rs1,
    decode_rs2, decode_s_imm,
};

const ADD_SAME_REG_FIELDS_IRS: [u32; 32] = [
    0x00000033, 0x001080b3, 0x00210133, 0x003181b3, 0x00420233, 0x005282b3, 0x00630333, 0x007383b3,
    0x00840433, 0x009484b3, 0x00a50533, 0x00b585b3, 0x00c60633, 0x00d686b3, 0x00e70733, 0x00f787b3,
    0x01080833, 0x011888b3, 0x01290933, 0x013989b3, 0x014a0a33, 0x015a8ab3, 0x016b0b33, 0x017b8bb3,
    0x018c0c33, 0x019c8cb3, 0x01ad0d33, 0x01bd8db3, 0x01ce0e33, 0x01de8eb3, 0x01ef0f33, 0x01ff8fb3,
];

const LUI_X5_4: u32 = 0x000042b7;
const AUIPC_X5_4: u32 = 0x00004297;
const JAL_X0_16: u32 = 0x0100006f;
const JAL_X0_NEG_8: u32 = 0xff9ff06f;
const JALR_X5_X5_4: u32 = 0x004282e7;
const BEQ_X5_X5_12: u32 = 0x00528663;
const BNE_X5_X5_76: u32 = 0x04529663;
const BLT_X5_X5_72: u32 = 0x0452c463;
const BGEU_X5_X5_68: u32 = 0x0452f263;
const LW_X5_0_X5: u32 = 0x0002a283;
const SW_X5_0_X5: u32 = 0x0052a023;
const LB_X5_0_X5: u32 = 0x00028283;
const LBU_X5_0_X5: u32 = 0x0002c283;
const LH_X5_0_X5: u32 = 0x00029283;
const LHU_X5_0_X5: u32 = 0x0002d283;
const SB_X5_0_X5: u32 = 0x00528023;
const SH_X5_0_X5: u32 = 0x00529023;
const ADDI_X0_X0_17: u32 = 0x01100013;
const SUB_X5_X5_X5: u32 = 0x405282b3;
const SLLI_X5_X5_1: u32 = 0x00129293;
const SLTI_X5_X5_1: u32 = 0x0012a293;
const SLTU_X5_X5_X5: u32 = 0x0052b2b3;
const XORI_X5_X5_1: u32 = 0x0012c293;
const SRAI_X5_X5_1: u32 = 0x4012d293;
const ORI_X5_X5_1: u32 = 0x0012e293;
const ANDI_X5_X5_1: u32 = 0x0012f293;
const XORI_X5_X6_82: u32 = 0x05234293;
const ADDI_X5_X6_0: u32 = 0x00030293;
const ADDI_X5_X6_2047: u32 = 0x7ff30293;
const ADDI_X5_X6_NEG_12: u32 = 0xff430293;
const ADDI_X5_X6_NEG_1: u32 = 0xfff30293;
const ADDI_X5_X6_NEG_2048: u32 = 0x80030293;
const SW_X5_16_X5: u32 = 0x0052a823;
const SW_X5_NEG_40_X5: u32 = 0xfc52ac23;
const SW_A0_NEG_36_SP: u32 = 0xfca42e23;
const SW_A0_NEG_20_S0: u32 = 0xfea42623;

#[test]
fn test_decode_opcode() {
    assert_eq!(OPCODE_LUI, decode_opcode(LUI_X5_4));
    assert_eq!(OPCODE_AUIPC, decode_opcode(AUIPC_X5_4));
    assert_eq!(OPCODE_JAL, decode_opcode(JAL_X0_16));
    assert_eq!(OPCODE_JALR, decode_opcode(JALR_X5_X5_4));
    assert_eq!(OPCODE_BRANCH, decode_opcode(BEQ_X5_X5_12));
    assert_eq!(OPCODE_LOAD, decode_opcode(LW_X5_0_X5));
    assert_eq!(OPCODE_STORE, decode_opcode(SW_X5_0_X5));
}

#[test]
fn test_decode_func3() {
    assert_eq!(FUNC3_BEQ, decode_func3(BEQ_X5_X5_12));
    assert_eq!(FUNC3_BNE, decode_func3(BNE_X5_X5_76));
    assert_eq!(FUNC3_BLT, decode_func3(BLT_X5_X5_72));
    assert_eq!(FUNC3_BGEU, decode_func3(BGEU_X5_X5_68));
    assert_eq!(FUNC3_LB, decode_func3(LB_X5_0_X5));
    assert_eq!(FUNC3_LBU, decode_func3(LBU_X5_0_X5));
    assert_eq!(FUNC3_LH, decode_func3(LH_X5_0_X5));
    assert_eq!(FUNC3_LHU, decode_func3(LHU_X5_0_X5));
    assert_eq!(FUNC3_SB, decode_func3(SB_X5_0_X5));
    assert_eq!(FUNC3_SH, decode_func3(SH_X5_0_X5));
    assert_eq!(FUNC3_SW, decode_func3(SW_X5_0_X5));
    assert_eq!(FUNC3_ADD_SUB, decode_func3(ADDI_X0_X0_17));
    assert_eq!(FUNC3_ADD_SUB, decode_func3(SUB_X5_X5_X5));
    assert_eq!(FUNC3_SLL, decode_func3(SLLI_X5_X5_1));
    assert_eq!(FUNC3_SLT, decode_func3(SLTI_X5_X5_1));
    assert_eq!(FUNC3_SLTU, decode_func3(SLTU_X5_X5_X5));
    assert_eq!(FUNC3_XOR, decode_func3(XORI_X5_X5_1));
    assert_eq!(FUNC3_SR, decode_func3(SRAI_X5_X5_1));
    assert_eq!(FUNC3_OR, decode_func3(ORI_X5_X5_1));
    assert_eq!(FUNC3_AND, decode_func3(ANDI_X5_X5_1));
}

#[test]
fn test_decode_i_imm() {
    assert_eq!(17, decode_i_imm(ADDI_X0_X0_17));
    assert_eq!(82, decode_i_imm(XORI_X5_X6_82));
    assert_eq!(0, decode_i_imm(ADDI_X5_X6_0));
    assert_eq!(2047, decode_i_imm(ADDI_X5_X6_2047));
    assert_eq!(-12, decode_i_imm(ADDI_X5_X6_NEG_12) as i32);
    assert_eq!(-1, decode_i_imm(ADDI_X5_X6_NEG_1) as i32);
    assert_eq!(-2048, decode_i_imm(ADDI_X5_X6_NEG_2048) as i32);
}

#[test]
fn test_decode_j_imm() {
    assert_eq!(-8, decode_j_imm(JAL_X0_NEG_8) as i32);
    assert_eq!(16, decode_j_imm(JAL_X0_16));
}

#[test]
fn test_decode_b_imm() {
    assert_eq!(12, decode_b_imm(BEQ_X5_X5_12));
    assert_eq!(76, decode_b_imm(BNE_X5_X5_76));
    assert_eq!(72, decode_b_imm(BLT_X5_X5_72));
}

#[test]
fn test_decode_s_imm() {
    assert_eq!(0, decode_s_imm(SW_X5_0_X5));
    assert_eq!(16, decode_s_imm(SW_X5_16_X5));
    assert_eq!(-40, decode_s_imm(SW_X5_NEG_40_X5) as i32);
    assert_eq!(-36, decode_s_imm(SW_A0_NEG_36_SP) as i32);
    assert_eq!(-20, decode_s_imm(SW_A0_NEG_20_S0) as i32);
}

#[test]
fn test_decode_rs1() {
    for i in 0..32 {
        assert_eq!(i as u8, decode_rs1(ADD_SAME_REG_FIELDS_IRS[i]));
    }
}

#[test]
fn test_decode_rs2() {
    for i in 0..32 {
        assert_eq!(i as u8, decode_rs2(ADD_SAME_REG_FIELDS_IRS[i]));
    }
}

#[test]
fn test_decode_rd() {
    for i in 0..32 {
        assert_eq!(i as u8, decode_rd(ADD_SAME_REG_FIELDS_IRS[i]));
    }
}

#[test]
fn encode_decode_round_trip_b_imm() {
    let mut imm: i32 = -4096;
    while imm <= 4094 {
        let word = lib_rv32::encode::encode_b_imm(imm as u32) | (OPCODE_BRANCH as u32);
        assert_eq!(imm, decode_b_imm(word) as i32);
        imm += 2;
    }
}

#[test]
fn encode_decode_round_trip_i_imm() {
    let mut imm: i32 = -2048;
    while imm <= 2047 {
        let word = lib_rv32::encode::encode_i_imm(imm as u32) | (OPCODE_JALR as u32);
        assert_eq!(imm, decode_i_imm(word) as i32);
        imm += 1;
    }
}

#[test]
fn encode_decode_round_trip_s_imm() {
    let mut imm: i32 = -2048;
    while imm <= 2047 {
        let word = lib_rv32::encode::encode_s_imm(imm as u32) | (OPCODE_STORE as u32);
        assert_eq!(imm, decode_s_imm(word) as i32);
        imm += 1;
    }
}

#[test]
fn encode_decode_round_trip_j_imm() {
    let mut imm: i32 = -1048576;
    while imm <= 1048574 {
        let word = lib_rv32::encode::encode_j_imm(imm as u32) | (OPCODE_JAL as u32);
        assert_eq!(imm, decode_j_imm(word) as i32);
        imm += 2;
    }
}
