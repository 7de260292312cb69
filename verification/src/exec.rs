//! The execution core: one fetch-decode-execute cycle per call, against the
//! register file and memory models. `spec_step` is the complete mathematical
//! description of a cycle; `exec_one` is proved to implement it.
//!
//! Everything is computed on 32-bit unsigned words with two's-complement
//! wrap-around; only comparisons and sub-word loads are sign-aware.

use vstd::prelude::*;
use crate::constants::{
    FUNC3_ADD_SUB, FUNC3_AND, FUNC3_BEQ, FUNC3_BGE, FUNC3_BGEU, FUNC3_BLT, FUNC3_BLTU, FUNC3_BNE,
    FUNC3_LB, FUNC3_LBU, FUNC3_LH, FUNC3_LHU, FUNC3_LW, FUNC3_OR, FUNC3_SB, FUNC3_SH, FUNC3_SLL,
    FUNC3_SLT, FUNC3_SLTU, FUNC3_SR, FUNC3_SW, FUNC3_XOR, FUNC7_ADD, FUNC7_SRA, FUNC7_SUB,
    OPCODE_ARITHMETIC, OPCODE_ARITHMETIC_IMM, OPCODE_AUIPC, OPCODE_BRANCH, OPCODE_JAL, OPCODE_JALR,
    OPCODE_LOAD, OPCODE_LUI, OPCODE_STORE,
};
use crate::decode::{
    decode_func3, decode_func7, decode_i_imm, decode_j_imm, decode_opcode, decode_rd, decode_rs1,
    decode_rs2, decode_s_imm, decode_u_imm, spec_decode_b_imm, spec_decode_func3,
    spec_decode_func7, spec_decode_i_imm, spec_decode_j_imm, spec_decode_opcode, spec_decode_rd,
    spec_decode_rs1, spec_decode_rs2, spec_decode_s_imm, spec_decode_u_imm, decode_b_imm,
};
use crate::error::RiscvError;
use crate::memory::{
    spec_mem_check, spec_read_byte, spec_read_half, spec_read_word, spec_store_byte,
    spec_store_half, spec_store_word, Memory,
};
use crate::register_file::{spec_rf_write, RegisterFile};

verus! {

/// 32-bit addition with wrap-around.
pub open spec fn wrap_add(a: u32, b: u32) -> u32 {
    if a + b > u32::MAX {
        (a + b - 0x1_0000_0000) as u32
    } else {
        (a + b) as u32
    }
}

/// 32-bit subtraction with wrap-around.
pub open spec fn wrap_sub(a: u32, b: u32) -> u32 {
    if a - b < 0 {
        (a - b + 0x1_0000_0000) as u32
    } else {
        (a - b) as u32
    }
}

/// Two's-complement order: `a < b` as signed 32-bit values. Flipping the
/// sign bit turns the signed order into the unsigned one.
pub open spec fn signed_lt(a: u32, b: u32) -> bool {
    (a ^ 0x8000_0000) < (b ^ 0x8000_0000)
}

/// A byte sign-extended to 32 bits.
pub open spec fn sext_byte(b: u32) -> u32
    recommends
        b < 0x100,
{
    if b & 0x80 != 0 {
        (b | 0xFFFF_FF00) as u32
    } else {
        b
    }
}

/// A half-word sign-extended to 32 bits.
pub open spec fn sext_half(h: u32) -> u32
    recommends
        h < 0x1_0000,
{
    if h & 0x8000 != 0 {
        (h | 0xFFFF_0000) as u32
    } else {
        h
    }
}

/// Arithmetic right shift of `l` by `sh < 32` bits.
pub open spec fn spec_sra(l: u32, sh: u32) -> u32
    recommends
        sh < 32,
{
    if sh == 0 {
        l
    } else if l & 0x8000_0000 != 0 {
        ((l >> sh) | (0xFFFF_FFFFu32 << ((32 - sh) as u32))) as u32
    } else {
        l >> sh
    }
}

/// Whether a branch with the given funct3 is taken on operands `a`, `b`;
/// `None` for a funct3 that names no branch.
pub open spec fn spec_branch_taken(func3: u8, a: u32, b: u32) -> Option<bool> {
    if func3 == FUNC3_BEQ {
        Some(a == b)
    } else if func3 == FUNC3_BNE {
        Some(a != b)
    } else if func3 == FUNC3_BLT {
        Some(signed_lt(a, b))
    } else if func3 == FUNC3_BGE {
        Some(!signed_lt(a, b))
    } else if func3 == FUNC3_BLTU {
        Some(a < b)
    } else if func3 == FUNC3_BGEU {
        Some(a >= b)
    } else {
        None
    }
}

/// The arithmetic result for OP/OP-IMM instructions. `is_imm` tells the
/// OP-IMM case apart: its funct3 0 is always an add, and its shifts take
/// their funct7-like bits from the immediate. Errors carry the word and the
/// offending field.
pub open spec fn spec_alu(ir: u32, is_imm: bool, lhs: u32, rhs: u32) -> Result<u32, RiscvError> {
    let func3 = spec_decode_func3(ir);
    let func7 = spec_decode_func7(ir);
    if func3 == FUNC3_ADD_SUB {
        if is_imm {
            Ok(wrap_add(lhs, rhs))
        } else if func7 == FUNC7_SUB {
            Ok(wrap_sub(lhs, rhs))
        } else if func7 == FUNC7_ADD {
            Ok(wrap_add(lhs, rhs))
        } else {
            Err(RiscvError::InvalidFunc7Error(ir, func7))
        }
    } else if func3 == FUNC3_SLL {
        Ok((lhs << ((rhs & 0x1F) as u32)) as u32)
    } else if func3 == FUNC3_SLT {
        Ok(
            if signed_lt(lhs, rhs) {
                1u32
            } else {
                0u32
            },
        )
    } else if func3 == FUNC3_SLTU {
        Ok(
            if lhs < rhs {
                1u32
            } else {
                0u32
            },
        )
    } else if func3 == FUNC3_XOR {
        Ok((lhs ^ rhs) as u32)
    } else if func3 == FUNC3_SR {
        if func7 == FUNC7_SRA {
            Ok(spec_sra(lhs, (rhs & 0x1F) as u32))
        } else {
            Ok((lhs >> ((rhs & 0x1F) as u32)) as u32)
        }
    } else if func3 == FUNC3_OR {
        Ok((lhs | rhs) as u32)
    } else {
        Ok((lhs & rhs) as u32)
    }
}

/// What a load with the given funct3 places in the destination register, or
/// the error it reports.
pub open spec fn spec_load_value(m: Seq<u8>, ir: u32, addr: u32) -> Result<u32, RiscvError> {
    let func3 = spec_decode_func3(ir);
    if func3 == FUNC3_LB {
        match spec_read_byte(m, addr) {
            Ok(d) => Ok(sext_byte(d)),
            Err(e) => Err(e),
        }
    } else if func3 == FUNC3_LH {
        match spec_read_half(m, addr) {
            Ok(d) => Ok(sext_half(d)),
            Err(e) => Err(e),
        }
    } else if func3 == FUNC3_LBU {
        spec_read_byte(m, addr)
    } else if func3 == FUNC3_LHU {
        spec_read_half(m, addr)
    } else if func3 == FUNC3_LW {
        spec_read_word(m, addr)
    } else {
        Err(RiscvError::InvalidFunc3Error(ir, func3))
    }
}

/// One complete fetch-decode-execute cycle from the state
/// `(pc, memory, registers)`: the next state on success, or the error that
/// the cycle reports, in which case the state does not change.
pub open spec fn spec_step(pc: u32, m: Seq<u8>, rf: Seq<u32>) -> Result<
    (u32, Seq<u8>, Seq<u32>),
    RiscvError,
> {
    match spec_read_word(m, pc) {
        Err(e) => Err(e),
        Ok(ir) => {
            let opcode = spec_decode_opcode(ir);
            let rd = spec_decode_rd(ir);
            let rs1v = rf[spec_decode_rs1(ir) as int];
            let rs2v = rf[spec_decode_rs2(ir) as int];
            let func3 = spec_decode_func3(ir);
            if opcode == OPCODE_LUI {
                Ok((wrap_add(pc, 4), m, spec_rf_write(rf, rd, spec_decode_u_imm(ir))))
            } else if opcode == OPCODE_AUIPC {
                Ok((wrap_add(pc, 4), m, spec_rf_write(rf, rd, wrap_add(pc, spec_decode_u_imm(ir)))))
            } else if opcode == OPCODE_JAL {
                Ok((wrap_add(pc, spec_decode_j_imm(ir)), m, spec_rf_write(rf, rd, wrap_add(pc, 4))))
            } else if opcode == OPCODE_JALR {
                Ok(
                    (
                        (wrap_add(rs1v, spec_decode_i_imm(ir)) & 0xFFFF_FFFE) as u32,
                        m,
                        spec_rf_write(rf, rd, wrap_add(pc, 4)),
                    ),
                )
            } else if opcode == OPCODE_BRANCH {
                match spec_branch_taken(func3, rs1v, rs2v) {
                    None => Err(RiscvError::InvalidFunc3Error(ir, func3)),
                    Some(taken) => Ok(
                        (
                            if taken {
                                wrap_add(pc, spec_decode_b_imm(ir))
                            } else {
                                wrap_add(pc, 4)
                            },
                            m,
                            rf,
                        ),
                    ),
                }
            } else if opcode == OPCODE_LOAD {
                let addr = wrap_add(rs1v, spec_decode_i_imm(ir));
                match spec_load_value(m, ir, addr) {
                    Err(e) => Err(e),
                    Ok(d) => Ok((wrap_add(pc, 4), m, spec_rf_write(rf, rd, d))),
                }
            } else if opcode == OPCODE_STORE {
                let addr = wrap_add(rs1v, spec_decode_s_imm(ir));
                if func3 == FUNC3_SB {
                    match spec_mem_check(m, addr, 1) {
                        Some(e) => Err(e),
                        None => Ok((wrap_add(pc, 4), spec_store_byte(m, addr as int, rs2v), rf)),
                    }
                } else if func3 == FUNC3_SH {
                    match spec_mem_check(m, addr, 2) {
                        Some(e) => Err(e),
                        None => Ok((wrap_add(pc, 4), spec_store_half(m, addr as int, rs2v), rf)),
                    }
                } else if func3 == FUNC3_SW {
                    match spec_mem_check(m, addr, 4) {
                        Some(e) => Err(e),
                        None => Ok((wrap_add(pc, 4), spec_store_word(m, addr as int, rs2v), rf)),
                    }
                } else {
                    Err(RiscvError::InvalidFunc3Error(ir, func3))
                }
            } else if opcode == OPCODE_ARITHMETIC || opcode == OPCODE_ARITHMETIC_IMM {
                let is_imm = opcode == OPCODE_ARITHMETIC_IMM;
                let rhs = if is_imm {
                    spec_decode_i_imm(ir)
                } else {
                    rs2v
                };
                match spec_alu(ir, is_imm, rs1v, rhs) {
                    Err(e) => Err(e),
                    Ok(d) => Ok((wrap_add(pc, 4), m, spec_rf_write(rf, rd, d))),
                }
            } else {
                Err(RiscvError::InvalidOpcodeError(ir, opcode))
            }
        },
    }
}

pub(crate) fn wadd(a: u32, b: u32) -> (r: u32)
    ensures
        r == wrap_add(a, b),
{
    a.wrapping_add(b)
}

fn wsub(a: u32, b: u32) -> (r: u32)
    ensures
        r == wrap_sub(a, b),
{
    a.wrapping_sub(b)
}

fn shamt(rhs: u32) -> (r: u32)
    ensures
        r == (rhs & 0x1F) as u32,
        r < 32,
{
    proof {
        assert((rhs & 0x1F) < 32) by (bit_vector);
    }
    rhs & 0x1F
}

fn sra_exec(l: u32, sh: u32) -> (r: u32)
    requires
        sh < 32,
    ensures
        r == spec_sra(l, sh),
{
    if sh == 0 {
        l
    } else if l & 0x8000_0000 != 0 {
        (l >> sh) | (0xFFFF_FFFFu32 << (32 - sh))
    } else {
        l >> sh
    }
}

/// Decode and execute the instruction under the PC, mutating the PC, the
/// memory and the register file in place exactly as `spec_step` describes.
/// On an error the machine state is left unchanged.
pub fn exec_one(pc: &mut u32, mem: &mut Memory, rf: &mut RegisterFile) -> (r: Result<
    (),
    RiscvError,
>)
    requires
        old(mem).wf(),
        old(rf).wf(),
    ensures
        final(mem).wf(),
        final(rf).wf(),
        match spec_step(*old(pc), old(mem)@, old(rf)@) {
            Ok((pc2, m2, rf2)) => r == Ok::<(), RiscvError>(()) && *final(pc) == pc2 && final(mem)@
                == m2 && final(rf)@ == rf2,
            Err(e) => r == Err::<(), RiscvError>(e) && *final(pc) == *old(pc) && final(mem)@ == old(
                mem,
            )@ && final(rf)@ == old(rf)@,
        },
{
    let ir = match mem.fetch(*pc) {
        Ok(ir) => ir,
        Err(e) => {
            return Err(e);
        },
    };
    let opcode = decode_opcode(ir);

    if opcode == OPCODE_LUI {
        let rd = decode_rd(ir);
        let imm = decode_u_imm(ir);
        if let Err(e) = rf.write(rd, imm) {
            return Err(e);
        }
        *pc = wadd(*pc, 4);
        Ok(())
    } else if opcode == OPCODE_AUIPC {
        let rd = decode_rd(ir);
        let imm = decode_u_imm(ir);
        if let Err(e) = rf.write(rd, wadd(*pc, imm)) {
            return Err(e);
        }
        *pc = wadd(*pc, 4);
        Ok(())
    } else if opcode == OPCODE_JAL {
        let rd = decode_rd(ir);
        let imm = decode_j_imm(ir);
        if let Err(e) = rf.write(rd, wadd(*pc, 4)) {
            return Err(e);
        }
        *pc = wadd(*pc, imm);
        Ok(())
    } else if opcode == OPCODE_JALR {
        let rd = decode_rd(ir);
        let rs1 = decode_rs1(ir);
        let imm = decode_i_imm(ir);
        let rs1_data = match rf.read(rs1) {
            Ok(d) => d,
            Err(e) => {
                return Err(e);
            },
        };
        if let Err(e) = rf.write(rd, wadd(*pc, 4)) {
            return Err(e);
        }
        *pc = wadd(rs1_data, imm) & 0xFFFF_FFFE;
        Ok(())
    } else if opcode == OPCODE_BRANCH {
        let rs1 = decode_rs1(ir);
        let rs1_data = match rf.read(rs1) {
            Ok(d) => d,
            Err(e) => {
                return Err(e);
            },
        };
        let rs2 = decode_rs2(ir);
        let rs2_data = match rf.read(rs2) {
            Ok(d) => d,
            Err(e) => {
                return Err(e);
            },
        };
        let func3 = decode_func3(ir);
        let taken = if func3 == FUNC3_BEQ {
            rs1_data == rs2_data
        } else if func3 == FUNC3_BNE {
            rs1_data != rs2_data
        } else if func3 == FUNC3_BLT {
            (rs1_data ^ 0x8000_0000) < (rs2_data ^ 0x8000_0000)
        } else if func3 == FUNC3_BGE {
            (rs1_data ^ 0x8000_0000) >= (rs2_data ^ 0x8000_0000)
        } else if func3 == FUNC3_BLTU {
            rs1_data < rs2_data
        } else if func3 == FUNC3_BGEU {
            rs1_data >= rs2_data
        } else {
            return Err(RiscvError::InvalidFunc3Error(ir, func3));
        };
        if taken {
            let imm = decode_b_imm(ir);
            *pc = wadd(*pc, imm);
        } else {
            *pc = wadd(*pc, 4);
        }
        Ok(())
    } else if opcode == OPCODE_LOAD {
        let rs1 = decode_rs1(ir);
        let base = match rf.read(rs1) {
            Ok(d) => d,
            Err(e) => {
                return Err(e);
            },
        };
        let imm = decode_i_imm(ir);
        let addr = wadd(base, imm);
        let rd = decode_rd(ir);
        let func3 = decode_func3(ir);
        let value = if func3 == FUNC3_LB {
            match mem.read_byte(addr) {
                Ok(d) => {
                    if d & 0x80 != 0 {
                        d | 0xFFFF_FF00
                    } else {
                        d
                    }
                },
                Err(e) => {
                    return Err(e);
                },
            }
        } else if func3 == FUNC3_LH {
            match mem.read_half_word(addr) {
                Ok(d) => {
                    if d & 0x8000 != 0 {
                        d | 0xFFFF_0000
                    } else {
                        d
                    }
                },
                Err(e) => {
                    return Err(e);
                },
            }
        } else if func3 == FUNC3_LBU {
            match mem.read_byte(addr) {
                Ok(d) => d,
                Err(e) => {
                    return Err(e);
                },
            }
        } else if func3 == FUNC3_LHU {
            match mem.read_half_word(addr) {
                Ok(d) => d,
                Err(e) => {
                    return Err(e);
                },
            }
        } else if func3 == FUNC3_LW {
            match mem.read_word(addr) {
                Ok(d) => d,
                Err(e) => {
                    return Err(e);
                },
            }
        } else {
            return Err(RiscvError::InvalidFunc3Error(ir, func3));
        };
        if let Err(e) = rf.write(rd, value) {
            return Err(e);
        }
        *pc = wadd(*pc, 4);
        Ok(())
    } else if opcode == OPCODE_STORE {
        let rs1 = decode_rs1(ir);
        let rs2 = decode_rs2(ir);
        let imm = decode_s_imm(ir);
        let func3 = decode_func3(ir);
        let base = match rf.read(rs1) {
            Ok(d) => d,
            Err(e) => {
                return Err(e);
            },
        };
        let addr = wadd(base, imm);
        let data = match rf.read(rs2) {
            Ok(d) => d,
            Err(e) => {
                return Err(e);
            },
        };
        let res = if func3 == FUNC3_SB {
            mem.write_byte(addr, data)
        } else if func3 == FUNC3_SH {
            mem.write_half_word(addr, data)
        } else if func3 == FUNC3_SW {
            mem.write_word(addr, data)
        } else {
            return Err(RiscvError::InvalidFunc3Error(ir, func3));
        };
        if let Err(e) = res {
            return Err(e);
        }
        *pc = wadd(*pc, 4);
        Ok(())
    } else if opcode == OPCODE_ARITHMETIC || opcode == OPCODE_ARITHMETIC_IMM {
        let is_imm = opcode == OPCODE_ARITHMETIC_IMM;
        let rd = decode_rd(ir);
        let rs1 = decode_rs1(ir);
        let lhs = match rf.read(rs1) {
            Ok(d) => d,
            Err(e) => {
                return Err(e);
            },
        };
        let rhs = if is_imm {
            decode_i_imm(ir)
        } else {
            match rf.read(decode_rs2(ir)) {
                Ok(d) => d,
                Err(e) => {
                    return Err(e);
                },
            }
        };
        let func3 = decode_func3(ir);
        let func7 = decode_func7(ir);
        let value = if func3 == FUNC3_ADD_SUB {
            if is_imm {
                wadd(lhs, rhs)
            } else if func7 == FUNC7_SUB {
                wsub(lhs, rhs)
            } else if func7 == FUNC7_ADD {
                wadd(lhs, rhs)
            } else {
                return Err(RiscvError::InvalidFunc7Error(ir, func7));
            }
        } else if func3 == FUNC3_SLL {
            lhs << shamt(rhs)
        } else if func3 == FUNC3_SLT {
            if (lhs ^ 0x8000_0000) < (rhs ^ 0x8000_0000) {
                1
            } else {
                0
            }
        } else if func3 == FUNC3_SLTU {
            if lhs < rhs {
                1
            } else {
                0
            }
        } else if func3 == FUNC3_XOR {
            lhs ^ rhs
        } else if func3 == FUNC3_SR {
            if func7 == FUNC7_SRA {
                sra_exec(lhs, shamt(rhs))
            } else {
                lhs >> shamt(rhs)
            }
        } else if func3 == FUNC3_OR {
            lhs | rhs
        } else {
            lhs & rhs
        };
        if let Err(e) = rf.write(rd, value) {
            return Err(e);
        }
        *pc = wadd(*pc, 4);
        Ok(())
    } else {
        Err(RiscvError::InvalidOpcodeError(ir, opcode))
    }
}

/// Register `x0` is invariant under execution: whatever program runs and
/// however many steps are taken, a step from a state whose register 0 is
/// zero reaches a state whose register 0 is zero, so `rf.read(0)` always
/// returns 0.
pub proof fn lemma_step_preserves_x0(pc: u32, m: Seq<u8>, rf: Seq<u32>)
    requires
        rf.len() == 32,
        rf[0] == 0,
    ensures
        spec_step(pc, m, rf) matches Ok((pc2, m2, rf2)) ==> rf2.len() == 32 && rf2[0] == 0,
{
    assert forall|ir: u32| #[trigger] spec_decode_rd(ir) < 32 by {
        assert(((ir >> 7) & 0x1F) < 32) by (bit_vector);
    }
    assert forall|rd: u8, v: u32| rd < 32 implies {
        let rf2 = #[trigger] spec_rf_write(rf, rd, v);
        rf2.len() == 32 && rf2[0] == 0
    } by {
        if rd != 0 {
            assert(spec_rf_write(rf, rd, v) == rf.update(rd as int, v));
        }
    }
}

} // verus!
