//! Field-level encoders. Each returns a 32-bit mask to be OR-ed into the
//! instruction word. Immediates that do not fit their field are silently
//! truncated to the bits the field can hold.

use vstd::prelude::*;

verus! {

pub open spec fn spec_encode_opcode(n: u8) -> u32 {
    (n as u32) & 0b0111_1111
}

pub open spec fn spec_encode_rd(n: u8) -> u32 {
    ((n as u32) & 0x1F) << 7
}

pub open spec fn spec_encode_rs1(n: u8) -> u32 {
    ((n as u32) & 0x1F) << 15
}

pub open spec fn spec_encode_rs2(n: u8) -> u32 {
    ((n as u32) & 0x1F) << 20
}

pub open spec fn spec_encode_func3(n: u8) -> u32 {
    ((n as u32) & 0b111) << 12
}

pub open spec fn spec_encode_func7(n: u8) -> u32 {
    ((n as u32) & 0b111_1111) << 25
}

/// I-type immediate: `imm[11:0]` into `ir[31:20]`, and the sign bit of the
/// 32-bit source into `ir[31]`.
pub open spec fn spec_encode_i_imm(n: u32) -> u32 {
    (((n & 0xFFF) << 20) | (n & 0x8000_0000)) as u32
}

/// S-type immediate: `imm[11:5]` into `ir[31:25]`, `imm[4:0]` into `ir[11:7]`.
pub open spec fn spec_encode_s_imm(n: u32) -> u32 {
    (((n & 0xFE0) << 20) | ((n & 0x1F) << 7)) as u32
}

/// B-type immediate: the sign bit into `ir[31]`, `imm[10:5]` into
/// `ir[30:25]`, `imm[4:1]` into `ir[11:8]`, `imm[11]` into `ir[7]`.
pub open spec fn spec_encode_b_imm(n: u32) -> u32 {
    ((n & 0x8000_0000) | ((n & 0x7E0) << 20) | ((n & 0x1E) << 7) | ((n & 0x800) >> 4)) as u32
}

/// U-type immediate: the low 20 bits into `ir[31:12]`.
pub open spec fn spec_encode_u_imm(n: u32) -> u32 {
    n << 12
}

/// J-type immediate: the sign bit into `ir[31]`, `imm[19:12]` kept in place,
/// `imm[11]` into `ir[20]`, `imm[10:5]` into `ir[30:25]`, `imm[4:1]` into
/// `ir[24:21]`.
pub open spec fn spec_encode_j_imm(n: u32) -> u32 {
    ((n & 0x8000_0000) | (n & 0xFF000) | ((n & 0x800) << 9) | ((n & 0x7E0) << 20) | ((n & 0x1E)
        << 20)) as u32
}

pub fn encode_opcode(n: u8) -> (r: u32)
    ensures
        r == spec_encode_opcode(n),
{
    (n as u32) & 0b0111_1111
}

pub fn encode_rd(n: u8) -> (r: u32)
    ensures
        r == spec_encode_rd(n),
{
    ((n as u32) & 0x1F) << 7
}

pub fn encode_rs1(n: u8) -> (r: u32)
    ensures
        r == spec_encode_rs1(n),
{
    ((n as u32) & 0x1F) << 15
}

pub fn encode_rs2(n: u8) -> (r: u32)
    ensures
        r == spec_encode_rs2(n),
{
    ((n as u32) & 0x1F) << 20
}

pub fn encode_func3(n: u8) -> (r: u32)
    ensures
        r == spec_encode_func3(n),
{
    ((n as u32) & 0b111) << 12
}

pub fn encode_func7(n: u8) -> (r: u32)
    ensures
        r == spec_encode_func7(n),
{
    ((n as u32) & 0b111_1111) << 25
}

pub fn encode_i_imm(n: u32) -> (r: u32)
    ensures
        r == spec_encode_i_imm(n),
{
    ((n & 0xFFF) << 20) | (n & 0x8000_0000)
}

pub fn encode_s_imm(n: u32) -> (r: u32)
    ensures
        r == spec_encode_s_imm(n),
{
    ((n & 0xFE0) << 20) | ((n & 0x1F) << 7)
}

pub fn encode_b_imm(n: u32) -> (r: u32)
    ensures
        r == spec_encode_b_imm(n),
{
    (n & 0x8000_0000) | ((n & 0x7E0) << 20) | ((n & 0x1E) << 7) | ((n & 0x800) >> 4)
}

pub fn encode_u_imm(n: u32) -> (r: u32)
    ensures
        r == spec_encode_u_imm(n),
{
    n << 12
}

pub fn encode_j_imm(n: u32) -> (r: u32)
    ensures
        r == spec_encode_j_imm(n),
{
    (n & 0x8000_0000) | (n & 0xFF000) | ((n & 0x800) << 9) | ((n & 0x7E0) << 20) | ((n & 0x1E)
        << 20)
}

} // verus!
