//! Field-level decoders: each extracts one right-justified field from a
//! 32-bit instruction word, sign-extending immediates as RV32I specifies.
//! The round-trip proofs at the bottom show that the decoders invert the
//! encoders for every in-range field value.

use vstd::prelude::*;
use crate::encode::{
    spec_encode_b_imm, spec_encode_func3, spec_encode_func7, spec_encode_i_imm, spec_encode_j_imm,
    spec_encode_opcode, spec_encode_rd, spec_encode_rs1, spec_encode_rs2, spec_encode_s_imm,
    spec_encode_u_imm,
};

verus! {

pub open spec fn spec_decode_opcode(ir: u32) -> u8 {
    (ir & 0x7F) as u8
}

pub open spec fn spec_decode_rd(ir: u32) -> u8 {
    (((ir >> 7) & 0x1F) as u32) as u8
}

pub open spec fn spec_decode_rs1(ir: u32) -> u8 {
    (((ir >> 15) & 0x1F) as u32) as u8
}

pub open spec fn spec_decode_rs2(ir: u32) -> u8 {
    (((ir >> 20) & 0x1F) as u32) as u8
}

pub open spec fn spec_decode_func3(ir: u32) -> u8 {
    (((ir >> 12) & 0b111) as u32) as u8
}

pub open spec fn spec_decode_func7(ir: u32) -> u8 {
    (((ir >> 25) & 0x7F) as u32) as u8
}

/// I-type immediate: `ir[31:20]`, sign-extended from `ir[31]`.
pub open spec fn spec_decode_i_imm(ir: u32) -> u32 {
    if ir & 0x8000_0000 != 0 {
        ((ir >> 20) | 0xFFFF_F000) as u32
    } else {
        ir >> 20
    }
}

/// S-type immediate: `ir[31:25]` over `ir[11:7]`, sign-extended from `ir[31]`.
pub open spec fn spec_decode_s_imm(ir: u32) -> u32 {
    if ir & 0x8000_0000 != 0 {
        ((((ir >> 25) & 0x7F) << 5) | ((ir >> 7) & 0x1F) | 0xFFFF_F000) as u32
    } else {
        ((((ir >> 25) & 0x7F) << 5) | ((ir >> 7) & 0x1F)) as u32
    }
}

/// B-type immediate: `imm[12]=ir[31]`, `imm[11]=ir[7]`, `imm[10:5]=ir[30:25]`,
/// `imm[4:1]=ir[11:8]`, `imm[0]=0`, sign-extended from `imm[12]`.
pub open spec fn spec_decode_b_imm(ir: u32) -> u32 {
    if ir & 0x8000_0000 != 0 {
        ((((ir >> 7) & 1) << 11) | (((ir >> 25) & 0x3F) << 5) | (((ir >> 8) & 0xF) << 1)
            | 0xFFFF_F000) as u32
    } else {
        ((((ir >> 7) & 1) << 11) | (((ir >> 25) & 0x3F) << 5) | (((ir >> 8) & 0xF) << 1)) as u32
    }
}

/// U-type immediate: `ir[31:12]` kept in place, low 12 bits zero.
pub open spec fn spec_decode_u_imm(ir: u32) -> u32 {
    (ir & 0xFFFF_F000) as u32
}

/// J-type immediate: `imm[20]=ir[31]`, `imm[19:12]=ir[19:12]`,
/// `imm[11]=ir[20]`, `imm[10:1]=ir[30:21]`, `imm[0]=0`, sign-extended from
/// `imm[20]`.
pub open spec fn spec_decode_j_imm(ir: u32) -> u32 {
    if ir & 0x8000_0000 != 0 {
        ((ir & 0xFF000) | (((ir >> 20) & 1) << 11) | (((ir >> 21) & 0x3FF) << 1) | 0xFFF0_0000)
            as u32
    } else {
        ((ir & 0xFF000) | (((ir >> 20) & 1) << 11) | (((ir >> 21) & 0x3FF) << 1)) as u32
    }
}

pub fn decode_opcode(ir: u32) -> (r: u8)
    ensures
        r == spec_decode_opcode(ir),
{
    (ir & 0x7F) as u8
}

pub fn decode_rd(ir: u32) -> (r: u8)
    ensures
        r == spec_decode_rd(ir),
        r < 32,
{
    proof {
        assert(((ir >> 7) & 0x1F) < 32) by (bit_vector);
    }
    ((ir >> 7) & 0x1F) as u8
}

pub fn decode_rs1(ir: u32) -> (r: u8)
    ensures
        r == spec_decode_rs1(ir),
        r < 32,
{
    proof {
        assert(((ir >> 15) & 0x1F) < 32) by (bit_vector);
    }
    ((ir >> 15) & 0x1F) as u8
}

pub fn decode_rs2(ir: u32) -> (r: u8)
    ensures
        r == spec_decode_rs2(ir),
        r < 32,
{
    proof {
        assert(((ir >> 20) & 0x1F) < 32) by (bit_vector);
    }
    ((ir >> 20) & 0x1F) as u8
}

pub fn decode_func3(ir: u32) -> (r: u8)
    ensures
        r == spec_decode_func3(ir),
        r < 8,
{
    proof {
        assert(((ir >> 12) & 0b111) < 8) by (bit_vector);
    }
    ((ir >> 12) & 0b111) as u8
}

pub fn decode_func7(ir: u32) -> (r: u8)
    ensures
        r == spec_decode_func7(ir),
        r < 128,
{
    proof {
        assert(((ir >> 25) & 0x7F) < 128) by (bit_vector);
    }
    ((ir >> 25) & 0x7F) as u8
}

pub fn decode_i_imm(ir: u32) -> (r: u32)
    ensures
        r == spec_decode_i_imm(ir),
{
    if ir & 0x8000_0000 != 0 {
        (ir >> 20) | 0xFFFF_F000
    } else {
        ir >> 20
    }
}

pub fn decode_s_imm(ir: u32) -> (r: u32)
    ensures
        r == spec_decode_s_imm(ir),
{
    let low = (((ir >> 25) & 0x7F) << 5) | ((ir >> 7) & 0x1F);
    if ir & 0x8000_0000 != 0 {
        low | 0xFFFF_F000
    } else {
        low
    }
}

pub fn decode_b_imm(ir: u32) -> (r: u32)
    ensures
        r == spec_decode_b_imm(ir),
{
    let low = (((ir >> 7) & 1) << 11) | (((ir >> 25) & 0x3F) << 5) | (((ir >> 8) & 0xF) << 1);
    if ir & 0x8000_0000 != 0 {
        low | 0xFFFF_F000
    } else {
        low
    }
}

pub fn decode_u_imm(ir: u32) -> (r: u32)
    ensures
        r == spec_decode_u_imm(ir),
{
    ir & 0xFFFF_F000
}

pub fn decode_j_imm(ir: u32) -> (r: u32)
    ensures
        r == spec_decode_j_imm(ir),
{
    let low = (ir & 0xFF000) | (((ir >> 20) & 1) << 11) | (((ir >> 21) & 0x3FF) << 1);
    if ir & 0x8000_0000 != 0 {
        low | 0xFFF0_0000
    } else {
        low
    }
}

/// A 32-bit value that is the sign extension of its own low 12 bits: the
/// in-range I-type and S-type immediates.
pub open spec fn fits_12_bit_imm(n: u32) -> bool {
    (n & 0xFFFF_F800) == 0 || (n & 0xFFFF_F800) == 0xFFFF_F800
}

/// A 32-bit value that is an even sign extension of its own low 13 bits: the
/// in-range B-type immediates.
pub open spec fn fits_b_imm(n: u32) -> bool {
    (n & 1) == 0 && ((n & 0xFFFF_F000) == 0 || (n & 0xFFFF_F000) == 0xFFFF_F000)
}

/// A 32-bit value that is an even sign extension of its own low 21 bits: the
/// in-range J-type immediates.
pub open spec fn fits_j_imm(n: u32) -> bool {
    (n & 1) == 0 && ((n & 0xFFF0_0000) == 0 || (n & 0xFFF0_0000) == 0xFFF0_0000)
}

/// A word assembled from the six R-type fields decodes back to those fields,
/// for every in-range field value.
pub proof fn lemma_fields_round_trip(opcode: u8, rd: u8, rs1: u8, rs2: u8, func3: u8, func7: u8)
    requires
        opcode < 128,
        rd < 32,
        rs1 < 32,
        rs2 < 32,
        func3 < 8,
        func7 < 128,
    ensures
        ({
            let w = (spec_encode_opcode(opcode) | spec_encode_rd(rd) | spec_encode_func3(func3)
                | spec_encode_rs1(rs1) | spec_encode_rs2(rs2) | spec_encode_func7(func7)) as u32;
            spec_decode_opcode(w) == opcode && spec_decode_rd(w) == rd && spec_decode_func3(w)
                == func3 && spec_decode_rs1(w) == rs1 && spec_decode_rs2(w) == rs2
                && spec_decode_func7(w) == func7
        }),
{
    let w = (spec_encode_opcode(opcode) | spec_encode_rd(rd) | spec_encode_func3(func3)
        | spec_encode_rs1(rs1) | spec_encode_rs2(rs2) | spec_encode_func7(func7)) as u32;
    assert(spec_decode_opcode(w) == opcode && spec_decode_rd(w) == rd && spec_decode_func3(w)
        == func3 && spec_decode_rs1(w) == rs1 && spec_decode_rs2(w) == rs2 && spec_decode_func7(w)
        == func7) by (bit_vector)
        requires
            opcode < 128,
            rd < 32,
            rs1 < 32,
            rs2 < 32,
            func3 < 8,
            func7 < 128,
            w == (((opcode as u32) & 0b0111_1111) | (((rd as u32) & 0x1F) << 7) | (((func3 as u32)
                & 0b111) << 12) | (((rs1 as u32) & 0x1F) << 15) | (((rs2 as u32) & 0x1F) << 20) | ((
            (func7 as u32) & 0b111_1111) << 25)) as u32,
    ;
}

/// An I-type word carrying an in-range immediate decodes back to the same
/// immediate and fields.
pub proof fn lemma_i_imm_round_trip(opcode: u8, rd: u8, func3: u8, rs1: u8, imm: u32)
    requires
        opcode < 128,
        rd < 32,
        func3 < 8,
        rs1 < 32,
        fits_12_bit_imm(imm),
    ensures
        ({
            let w = (spec_encode_opcode(opcode) | spec_encode_rd(rd) | spec_encode_func3(func3)
                | spec_encode_rs1(rs1) | spec_encode_i_imm(imm)) as u32;
            spec_decode_i_imm(w) == imm && spec_decode_opcode(w) == opcode && spec_decode_rd(w)
                == rd && spec_decode_func3(w) == func3 && spec_decode_rs1(w) == rs1
        }),
{
    let w = (spec_encode_opcode(opcode) | spec_encode_rd(rd) | spec_encode_func3(func3)
        | spec_encode_rs1(rs1) | spec_encode_i_imm(imm)) as u32;
    assert(spec_decode_i_imm(w) == imm && spec_decode_opcode(w) == opcode && spec_decode_rd(w) == rd
        && spec_decode_func3(w) == func3 && spec_decode_rs1(w) == rs1) by (bit_vector)
        requires
            opcode < 128,
            rd < 32,
            func3 < 8,
            rs1 < 32,
            (imm & 0xFFFF_F800) == 0 || (imm & 0xFFFF_F800) == 0xFFFF_F800,
            w == (((opcode as u32) & 0b0111_1111) | (((rd as u32) & 0x1F) << 7) | (((func3 as u32)
                & 0b111) << 12) | (((rs1 as u32) & 0x1F) << 15) | (((imm & 0xFFF) << 20) | (imm
                & 0x8000_0000))) as u32,
    ;
}

/// An S-type word carrying an in-range immediate decodes back to the same
/// immediate and fields.
pub proof fn lemma_s_imm_round_trip(opcode: u8, func3: u8, rs1: u8, rs2: u8, imm: u32)
    requires
        opcode < 128,
        func3 < 8,
        rs1 < 32,
        rs2 < 32,
        fits_12_bit_imm(imm),
    ensures
        ({
            let w = (spec_encode_opcode(opcode) | spec_encode_func3(func3) | spec_encode_rs1(rs1)
                | spec_encode_rs2(rs2) | spec_encode_s_imm(imm)) as u32;
            spec_decode_s_imm(w) == imm && spec_decode_opcode(w) == opcode && spec_decode_func3(w)
                == func3 && spec_decode_rs1(w) == rs1 && spec_decode_rs2(w) == rs2
        }),
{
    let w = (spec_encode_opcode(opcode) | spec_encode_func3(func3) | spec_encode_rs1(rs1)
        | spec_encode_rs2(rs2) | spec_encode_s_imm(imm)) as u32;
    assert(spec_decode_s_imm(w) == imm && spec_decode_opcode(w) == opcode && spec_decode_func3(w)
        == func3 && spec_decode_rs1(w) == rs1 && spec_decode_rs2(w) == rs2) by (bit_vector)
        requires
            opcode < 128,
            func3 < 8,
            rs1 < 32,
            rs2 < 32,
            (imm & 0xFFFF_F800) == 0 || (imm & 0xFFFF_F800) == 0xFFFF_F800,
            w == (((opcode as u32) & 0b0111_1111) | (((func3 as u32) & 0b111) << 12) | (((rs1
                as u32) & 0x1F) << 15) | (((rs2 as u32) & 0x1F) << 20) | (((imm & 0xFE0) << 20) | ((
            imm & 0x1F) << 7))) as u32,
    ;
}

/// A B-type word carrying an in-range immediate decodes back to the same
/// immediate and fields.
pub proof fn lemma_b_imm_round_trip(opcode: u8, func3: u8, rs1: u8, rs2: u8, imm: u32)
    requires
        opcode < 128,
        func3 < 8,
        rs1 < 32,
        rs2 < 32,
        fits_b_imm(imm),
    ensures
        ({
            let w = (spec_encode_opcode(opcode) | spec_encode_func3(func3) | spec_encode_rs1(rs1)
                | spec_encode_rs2(rs2) | spec_encode_b_imm(imm)) as u32;
            spec_decode_b_imm(w) == imm && spec_decode_opcode(w) == opcode && spec_decode_func3(w)
                == func3 && spec_decode_rs1(w) == rs1 && spec_decode_rs2(w) == rs2
        }),
{
    let w = (spec_encode_opcode(opcode) | spec_encode_func3(func3) | spec_encode_rs1(rs1)
        | spec_encode_rs2(rs2) | spec_encode_b_imm(imm)) as u32;
    assert(spec_decode_b_imm(w) == imm && spec_decode_opcode(w) == opcode && spec_decode_func3(w)
        == func3 && spec_decode_rs1(w) == rs1 && spec_decode_rs2(w) == rs2) by (bit_vector)
        requires
            opcode < 128,
            func3 < 8,
            rs1 < 32,
            rs2 < 32,
            (imm & 1) == 0 && ((imm & 0xFFFF_F000) == 0 || (imm & 0xFFFF_F000) == 0xFFFF_F000),
            w == (((opcode as u32) & 0b0111_1111) | (((func3 as u32) & 0b111) << 12) | (((rs1
                as u32) & 0x1F) << 15) | (((rs2 as u32) & 0x1F) << 20) | ((imm & 0x8000_0000) | ((
            imm & 0x7E0) << 20) | ((imm & 0x1E) << 7) | ((imm & 0x800) >> 4))) as u32,
    ;
}

/// A U-type word carrying a 20-bit immediate decodes back to that immediate
/// shifted into place.
pub proof fn lemma_u_imm_round_trip(opcode: u8, rd: u8, imm: u32)
    requires
        opcode < 128,
        rd < 32,
        imm < 0x10_0000,
    ensures
        ({
            let w = (spec_encode_opcode(opcode) | spec_encode_rd(rd) | spec_encode_u_imm(imm))
                as u32;
            spec_decode_u_imm(w) == (imm << 12) && spec_decode_opcode(w) == opcode
                && spec_decode_rd(w) == rd
        }),
{
    let w = (spec_encode_opcode(opcode) | spec_encode_rd(rd) | spec_encode_u_imm(imm)) as u32;
    assert(spec_decode_u_imm(w) == (imm << 12) && spec_decode_opcode(w) == opcode
        && spec_decode_rd(w) == rd) by (bit_vector)
        requires
            opcode < 128,
            rd < 32,
            imm < 0x10_0000,
            w == (((opcode as u32) & 0b0111_1111) | (((rd as u32) & 0x1F) << 7) | (imm << 12))
                as u32,
    ;
}

/// A J-type word carrying an in-range immediate decodes back to the same
/// immediate and fields.
pub proof fn lemma_j_imm_round_trip(opcode: u8, rd: u8, imm: u32)
    requires
        opcode < 128,
        rd < 32,
        fits_j_imm(imm),
    ensures
        ({
            let w = (spec_encode_opcode(opcode) | spec_encode_rd(rd) | spec_encode_j_imm(imm))
                as u32;
            spec_decode_j_imm(w) == imm && spec_decode_opcode(w) == opcode && spec_decode_rd(w)
                == rd
        }),
{
    let w = (spec_encode_opcode(opcode) | spec_encode_rd(rd) | spec_encode_j_imm(imm)) as u32;
    assert(spec_decode_j_imm(w) == imm && spec_decode_opcode(w) == opcode && spec_decode_rd(w)
        == rd) by (bit_vector)
        requires
            opcode < 128,
            rd < 32,
            (imm & 1) == 0 && ((imm & 0xFFF0_0000) == 0 || (imm & 0xFFF0_0000) == 0xFFF0_0000),
            w == (((opcode as u32) & 0b0111_1111) | (((rd as u32) & 0x1F) << 7) | ((imm
                & 0x8000_0000) | (imm & 0xFF000) | ((imm & 0x800) << 9) | ((imm & 0x7E0) << 20) | ((
            imm & 0x1E) << 20))) as u32,
    ;
}

} // verus!
