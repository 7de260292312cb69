//! Parsing of tokens: mnemonics to opcodes and sub-opcodes, register names
//! to register numbers, and immediate tokens (decimal or `0x`-prefixed
//! hexadecimal integers, or labels resolved PC-relative) to 32-bit values.

use vstd::prelude::*;
use crate::constants::{
    FUNC3_ADD_SUB, FUNC3_AND, FUNC3_BEQ, FUNC3_BGE, FUNC3_BGEU, FUNC3_BLT, FUNC3_BLTU, FUNC3_BNE,
    FUNC3_LB, FUNC3_LBU, FUNC3_LH, FUNC3_LHU, FUNC3_LW, FUNC3_OR, FUNC3_SB, FUNC3_SH, FUNC3_SLL,
    FUNC3_SLT, FUNC3_SLTU, FUNC3_SR, FUNC3_SW, FUNC3_XOR, FUNC7_ADD, FUNC7_SRA, FUNC7_SRL,
    FUNC7_SUB, OPCODE_ARITHMETIC, OPCODE_ARITHMETIC_IMM, OPCODE_AUIPC, OPCODE_BRANCH, OPCODE_JAL,
    OPCODE_JALR, OPCODE_LOAD, OPCODE_LUI, OPCODE_STORE,
};
use crate::error::AssemblerError;
use crate::exec::wrap_sub;
use crate::labels::LabelTable;
use crate::text::{chars_to_string, str_chars};

verus! {

pub(crate) fn is1(t: &[char], a: char) -> (r: bool)
    ensures
        r == (t@ == seq![a]),
{
    let r = t.len() == 1 && t[0] == a;
    proof {
        if r {
            assert(t@ =~= seq![a]);
        } else {
            assert(t@ != seq![a]) by {
                if t@.len() == 1 && t@[0] == a {
                    assert(t@ =~= seq![a]);
                }
            }
        }
    }
    r
}

pub(crate) fn is2(t: &[char], a: char, b: char) -> (r: bool)
    ensures
        r == (t@ == seq![a, b]),
{
    let r = t.len() == 2 && t[0] == a && t[1] == b;
    proof {
        if r {
            assert(t@ =~= seq![a, b]);
        } else {
            if t@.len() == 2 && t@[0] == a && t@[1] == b {
                assert(t@ =~= seq![a, b]);
            }
        }
    }
    r
}

pub(crate) fn is3(t: &[char], a: char, b: char, c: char) -> (r: bool)
    ensures
        r == (t@ == seq![a, b, c]),
{
    let r = t.len() == 3 && t[0] == a && t[1] == b && t[2] == c;
    proof {
        if r {
            assert(t@ =~= seq![a, b, c]);
        } else {
            if t@.len() == 3 && t@[0] == a && t@[1] == b && t@[2] == c {
                assert(t@ =~= seq![a, b, c]);
            }
        }
    }
    r
}

pub(crate) fn is4(t: &[char], a: char, b: char, c: char, d: char) -> (r: bool)
    ensures
        r == (t@ == seq![a, b, c, d]),
{
    let r = t.len() == 4 && t[0] == a && t[1] == b && t[2] == c && t[3] == d;
    proof {
        if r {
            assert(t@ =~= seq![a, b, c, d]);
        } else {
            if t@.len() == 4 && t@[0] == a && t@[1] == b && t@[2] == c && t@[3] == d {
                assert(t@ =~= seq![a, b, c, d]);
            }
        }
    }
    r
}

pub(crate) fn is5(t: &[char], a: char, b: char, c: char, d: char, e: char) -> (r: bool)
    ensures
        r == (t@ == seq![a, b, c, d, e]),
{
    let r = t.len() == 5 && t[0] == a && t[1] == b && t[2] == c && t[3] == d && t[4] == e;
    proof {
        if r {
            assert(t@ =~= seq![a, b, c, d, e]);
        } else {
            if t@.len() == 5 && t@[0] == a && t@[1] == b && t@[2] == c && t@[3] == d && t@[4]
                == e {
                assert(t@ =~= seq![a, b, c, d, e]);
            }
        }
    }
    r
}

/// The major opcode that a mnemonic names, if any.
pub open spec fn spec_opcode_of(t: Seq<char>) -> Option<u8> {
    if t == seq!['a', 'd', 'd'] || t == seq!['s', 'u', 'b'] || t == seq!['s', 'l', 'l'] || t == seq!['s', 'l', 't'] || t == seq!['s', 'l', 't', 'u'] || t == seq!['x', 'o', 'r'] || t == seq!['s', 'r', 'l'] || t == seq!['s', 'r', 'a'] || t == seq!['o', 'r'] || t == seq!['a', 'n', 'd'] {
        Some(OPCODE_ARITHMETIC)
    } else if t == seq!['a', 'd', 'd', 'i'] || t == seq!['s', 'l', 'l', 'i'] || t == seq!['s', 'l', 't', 'i'] || t == seq!['s', 'l', 't', 'i', 'u'] || t == seq!['x', 'o', 'r', 'i'] || t == seq!['s', 'r', 'l', 'i'] || t == seq!['s', 'r', 'a', 'i'] || t == seq!['o', 'r', 'i'] || t == seq!['a', 'n', 'd', 'i'] {
        Some(OPCODE_ARITHMETIC_IMM)
    } else if t == seq!['l', 'u', 'i'] {
        Some(OPCODE_LUI)
    } else if t == seq!['a', 'u', 'i', 'p', 'c'] {
        Some(OPCODE_AUIPC)
    } else if t == seq!['j', 'a', 'l'] {
        Some(OPCODE_JAL)
    } else if t == seq!['j', 'a', 'l', 'r'] {
        Some(OPCODE_JALR)
    } else if t == seq!['b', 'e', 'q'] || t == seq!['b', 'n', 'e'] || t == seq!['b', 'l', 't'] || t == seq!['b', 'g', 'e'] || t == seq!['b', 'l', 't', 'u'] || t == seq!['b', 'g', 'e', 'u'] {
        Some(OPCODE_BRANCH)
    } else if t == seq!['l', 'b'] || t == seq!['l', 'b', 'u'] || t == seq!['l', 'h'] || t == seq!['l', 'h', 'u'] || t == seq!['l', 'w'] {
        Some(OPCODE_LOAD)
    } else if t == seq!['s', 'b'] || t == seq!['s', 'h'] || t == seq!['s', 'w'] {
        Some(OPCODE_STORE)
    } else {
        None
    }
}

pub(crate) fn opcode_of_chars(t: &[char]) -> (r: Option<u8>)
    ensures
        r == spec_opcode_of(t@),
{
    if is3(t, 'a', 'd', 'd') || is3(t, 's', 'u', 'b') || is3(t, 's', 'l', 'l') || is3(t, 's', 'l', 't') || is4(t, 's', 'l', 't', 'u') || is3(t, 'x', 'o', 'r') || is3(t, 's', 'r', 'l') || is3(t, 's', 'r', 'a') || is2(t, 'o', 'r') || is3(t, 'a', 'n', 'd') {
        Some(OPCODE_ARITHMETIC)
    } else if is4(t, 'a', 'd', 'd', 'i') || is4(t, 's', 'l', 'l', 'i') || is4(t, 's', 'l', 't', 'i') || is5(t, 's', 'l', 't', 'i', 'u') || is4(t, 'x', 'o', 'r', 'i') || is4(t, 's', 'r', 'l', 'i') || is4(t, 's', 'r', 'a', 'i') || is3(t, 'o', 'r', 'i') || is4(t, 'a', 'n', 'd', 'i') {
        Some(OPCODE_ARITHMETIC_IMM)
    } else if is3(t, 'l', 'u', 'i') {
        Some(OPCODE_LUI)
    } else if is5(t, 'a', 'u', 'i', 'p', 'c') {
        Some(OPCODE_AUIPC)
    } else if is3(t, 'j', 'a', 'l') {
        Some(OPCODE_JAL)
    } else if is4(t, 'j', 'a', 'l', 'r') {
        Some(OPCODE_JALR)
    } else if is3(t, 'b', 'e', 'q') || is3(t, 'b', 'n', 'e') || is3(t, 'b', 'l', 't') || is3(t, 'b', 'g', 'e') || is4(t, 'b', 'l', 't', 'u') || is4(t, 'b', 'g', 'e', 'u') {
        Some(OPCODE_BRANCH)
    } else if is2(t, 'l', 'b') || is3(t, 'l', 'b', 'u') || is2(t, 'l', 'h') || is3(t, 'l', 'h', 'u') || is2(t, 'l', 'w') {
        Some(OPCODE_LOAD)
    } else if is2(t, 's', 'b') || is2(t, 's', 'h') || is2(t, 's', 'w') {
        Some(OPCODE_STORE)
    } else {
        None
    }
}

/// The funct3 value of a mnemonic; 0 for one that has none.
pub open spec fn spec_func3_of(t: Seq<char>) -> u8 {
    if t == seq!['b', 'e', 'q'] {
        FUNC3_BEQ
    } else if t == seq!['b', 'n', 'e'] {
        FUNC3_BNE
    } else if t == seq!['b', 'l', 't'] {
        FUNC3_BLT
    } else if t == seq!['b', 'g', 'e'] {
        FUNC3_BGE
    } else if t == seq!['b', 'l', 't', 'u'] {
        FUNC3_BLTU
    } else if t == seq!['b', 'g', 'e', 'u'] {
        FUNC3_BGEU
    } else if t == seq!['l', 'b'] {
        FUNC3_LB
    } else if t == seq!['l', 'b', 'u'] {
        FUNC3_LBU
    } else if t == seq!['l', 'h'] {
        FUNC3_LH
    } else if t == seq!['l', 'h', 'u'] {
        FUNC3_LHU
    } else if t == seq!['l', 'w'] {
        FUNC3_LW
    } else if t == seq!['s', 'b'] {
        FUNC3_SB
    } else if t == seq!['s', 'h'] {
        FUNC3_SH
    } else if t == seq!['s', 'w'] {
        FUNC3_SW
    } else if t == seq!['a', 'd', 'd'] || t == seq!['a', 'd', 'd', 'i'] || t == seq!['s', 'u', 'b'] {
        FUNC3_ADD_SUB
    } else if t == seq!['s', 'l', 'l'] || t == seq!['s', 'l', 'l', 'i'] {
        FUNC3_SLL
    } else if t == seq!['s', 'l', 't'] || t == seq!['s', 'l', 't', 'i'] {
        FUNC3_SLT
    } else if t == seq!['s', 'l', 't', 'u'] || t == seq!['s', 'l', 't', 'i', 'u'] {
        FUNC3_SLTU
    } else if t == seq!['x', 'o', 'r'] || t == seq!['x', 'o', 'r', 'i'] {
        FUNC3_XOR
    } else if t == seq!['s', 'r', 'a'] || t == seq!['s', 'r', 'a', 'i'] || t == seq!['s', 'r', 'l'] || t == seq!['s', 'r', 'l', 'i'] {
        FUNC3_SR
    } else if t == seq!['o', 'r'] || t == seq!['o', 'r', 'i'] {
        FUNC3_OR
    } else if t == seq!['a', 'n', 'd'] || t == seq!['a', 'n', 'd', 'i'] {
        FUNC3_AND
    } else {
        0u8
    }
}

pub(crate) fn func3_of_chars(t: &[char]) -> (r: u8)
    ensures
        r == spec_func3_of(t@),
{
    if is3(t, 'b', 'e', 'q') {
        FUNC3_BEQ
    } else if is3(t, 'b', 'n', 'e') {
        FUNC3_BNE
    } else if is3(t, 'b', 'l', 't') {
        FUNC3_BLT
    } else if is3(t, 'b', 'g', 'e') {
        FUNC3_BGE
    } else if is4(t, 'b', 'l', 't', 'u') {
        FUNC3_BLTU
    } else if is4(t, 'b', 'g', 'e', 'u') {
        FUNC3_BGEU
    } else if is2(t, 'l', 'b') {
        FUNC3_LB
    } else if is3(t, 'l', 'b', 'u') {
        FUNC3_LBU
    } else if is2(t, 'l', 'h') {
        FUNC3_LH
    } else if is3(t, 'l', 'h', 'u') {
        FUNC3_LHU
    } else if is2(t, 'l', 'w') {
        FUNC3_LW
    } else if is2(t, 's', 'b') {
        FUNC3_SB
    } else if is2(t, 's', 'h') {
        FUNC3_SH
    } else if is2(t, 's', 'w') {
        FUNC3_SW
    } else if is3(t, 'a', 'd', 'd') || is4(t, 'a', 'd', 'd', 'i') || is3(t, 's', 'u', 'b') {
        FUNC3_ADD_SUB
    } else if is3(t, 's', 'l', 'l') || is4(t, 's', 'l', 'l', 'i') {
        FUNC3_SLL
    } else if is3(t, 's', 'l', 't') || is4(t, 's', 'l', 't', 'i') {
        FUNC3_SLT
    } else if is4(t, 's', 'l', 't', 'u') || is5(t, 's', 'l', 't', 'i', 'u') {
        FUNC3_SLTU
    } else if is3(t, 'x', 'o', 'r') || is4(t, 'x', 'o', 'r', 'i') {
        FUNC3_XOR
    } else if is3(t, 's', 'r', 'a') || is4(t, 's', 'r', 'a', 'i') || is3(t, 's', 'r', 'l') || is4(t, 's', 'r', 'l', 'i') {
        FUNC3_SR
    } else if is2(t, 'o', 'r') || is3(t, 'o', 'r', 'i') {
        FUNC3_OR
    } else if is3(t, 'a', 'n', 'd') || is4(t, 'a', 'n', 'd', 'i') {
        FUNC3_AND
    } else {
        0u8
    }
}

/// The funct7 value of an R-type mnemonic; 0 for one that has none.
pub open spec fn spec_func7_of(t: Seq<char>) -> u8 {
    if t == seq!['a', 'd', 'd'] || t == seq!['a', 'd', 'd', 'i'] {
        FUNC7_ADD
    } else if t == seq!['s', 'u', 'b'] {
        FUNC7_SUB
    } else if t == seq!['s', 'r', 'a'] || t == seq!['s', 'r', 'a', 'i'] {
        FUNC7_SRA
    } else if t == seq!['s', 'r', 'l'] || t == seq!['s', 'r', 'l', 'i'] {
        FUNC7_SRL
    } else {
        0u8
    }
}

pub(crate) fn func7_of_chars(t: &[char]) -> (r: u8)
    ensures
        r == spec_func7_of(t@),
{
    if is3(t, 'a', 'd', 'd') || is4(t, 'a', 'd', 'd', 'i') {
        FUNC7_ADD
    } else if is3(t, 's', 'u', 'b') {
        FUNC7_SUB
    } else if is3(t, 's', 'r', 'a') || is4(t, 's', 'r', 'a', 'i') {
        FUNC7_SRA
    } else if is3(t, 's', 'r', 'l') || is4(t, 's', 'r', 'l', 'i') {
        FUNC7_SRL
    } else {
        0u8
    }
}

/// The register number of an ABI register name, if any.
pub open spec fn spec_abi_of(t: Seq<char>) -> Option<u8> {
    if t == seq!['z', 'e', 'r', 'o'] {
        Some(0u8)
    } else if t == seq!['r', 'a'] {
        Some(1u8)
    } else if t == seq!['s', 'p'] {
        Some(2u8)
    } else if t == seq!['g', 'p'] {
        Some(3u8)
    } else if t == seq!['t', 'p'] {
        Some(4u8)
    } else if t == seq!['t', '0'] {
        Some(5u8)
    } else if t == seq!['t', '1'] {
        Some(6u8)
    } else if t == seq!['t', '2'] {
        Some(7u8)
    } else if t == seq!['s', '0'] {
        Some(8u8)
    } else if t == seq!['s', '1'] {
        Some(9u8)
    } else if t == seq!['a', '0'] {
        Some(10u8)
    } else if t == seq!['a', '1'] {
        Some(11u8)
    } else if t == seq!['a', '2'] {
        Some(12u8)
    } else if t == seq!['a', '3'] {
        Some(13u8)
    } else if t == seq!['a', '4'] {
        Some(14u8)
    } else if t == seq!['a', '5'] {
        Some(15u8)
    } else if t == seq!['a', '6'] {
        Some(16u8)
    } else if t == seq!['a', '7'] {
        Some(17u8)
    } else if t == seq!['s', '2'] {
        Some(18u8)
    } else if t == seq!['s', '3'] {
        Some(19u8)
    } else if t == seq!['s', '4'] {
        Some(20u8)
    } else if t == seq!['s', '5'] {
        Some(21u8)
    } else if t == seq!['s', '6'] {
        Some(22u8)
    } else if t == seq!['s', '7'] {
        Some(23u8)
    } else if t == seq!['s', '8'] {
        Some(24u8)
    } else if t == seq!['s', '9'] {
        Some(25u8)
    } else if t == seq!['s', '1', '0'] {
        Some(26u8)
    } else if t == seq!['s', '1', '1'] {
        Some(27u8)
    } else if t == seq!['t', '3'] {
        Some(28u8)
    } else if t == seq!['t', '4'] {
        Some(29u8)
    } else if t == seq!['t', '5'] {
        Some(30u8)
    } else if t == seq!['t', '6'] {
        Some(31u8)
    } else {
        None
    }
}

pub(crate) fn abi_of_chars(t: &[char]) -> (r: Option<u8>)
    ensures
        r == spec_abi_of(t@),
{
    if is4(t, 'z', 'e', 'r', 'o') {
        Some(0u8)
    } else if is2(t, 'r', 'a') {
        Some(1u8)
    } else if is2(t, 's', 'p') {
        Some(2u8)
    } else if is2(t, 'g', 'p') {
        Some(3u8)
    } else if is2(t, 't', 'p') {
        Some(4u8)
    } else if is2(t, 't', '0') {
        Some(5u8)
    } else if is2(t, 't', '1') {
        Some(6u8)
    } else if is2(t, 't', '2') {
        Some(7u8)
    } else if is2(t, 's', '0') {
        Some(8u8)
    } else if is2(t, 's', '1') {
        Some(9u8)
    } else if is2(t, 'a', '0') {
        Some(10u8)
    } else if is2(t, 'a', '1') {
        Some(11u8)
    } else if is2(t, 'a', '2') {
        Some(12u8)
    } else if is2(t, 'a', '3') {
        Some(13u8)
    } else if is2(t, 'a', '4') {
        Some(14u8)
    } else if is2(t, 'a', '5') {
        Some(15u8)
    } else if is2(t, 'a', '6') {
        Some(16u8)
    } else if is2(t, 'a', '7') {
        Some(17u8)
    } else if is2(t, 's', '2') {
        Some(18u8)
    } else if is2(t, 's', '3') {
        Some(19u8)
    } else if is2(t, 's', '4') {
        Some(20u8)
    } else if is2(t, 's', '5') {
        Some(21u8)
    } else if is2(t, 's', '6') {
        Some(22u8)
    } else if is2(t, 's', '7') {
        Some(23u8)
    } else if is2(t, 's', '8') {
        Some(24u8)
    } else if is2(t, 's', '9') {
        Some(25u8)
    } else if is3(t, 's', '1', '0') {
        Some(26u8)
    } else if is3(t, 's', '1', '1') {
        Some(27u8)
    } else if is2(t, 't', '3') {
        Some(28u8)
    } else if is2(t, 't', '4') {
        Some(29u8)
    } else if is2(t, 't', '5') {
        Some(30u8)
    } else if is2(t, 't', '6') {
        Some(31u8)
    } else {
        None
    }
}

/// Match an operation to the correct opcode.
pub fn match_opcode(op: &str) -> (r: Result<u8, AssemblerError>)
    ensures
        spec_opcode_of(op@) matches Some(o) ==> r == Ok::<u8, AssemblerError>(o),
        spec_opcode_of(op@) is None ==> (r matches Err(e) && (e matches
            AssemblerError::InvalidOperationError(s) && s@ == op@)),
{
    let cs = str_chars(op);
    match opcode_of_chars(cs.as_slice()) {
        Some(o) => Ok(o),
        None => Err(AssemblerError::InvalidOperationError(chars_to_string(&cs))),
    }
}


/// A decimal digit.
pub open spec fn spec_dec_digit(c: char) -> bool {
    48 <= c as u32 <= 57
}

/// A hexadecimal digit (either case).
pub open spec fn spec_hex_digit(c: char) -> bool {
    spec_dec_digit(c) || (97 <= c as u32 <= 102) || (65 <= c as u32 <= 70)
}

/// The value of one digit.
pub open spec fn spec_digit_val(c: char) -> int {
    if spec_dec_digit(c) {
        c as u32 - 48
    } else if 97 <= c as u32 <= 102 {
        c as u32 - 87
    } else {
        c as u32 - 55
    }
}

/// Whether every character of `s` is a digit of the base.
pub open spec fn spec_all_digits(s: Seq<char>, hex: bool) -> bool {
    forall|k: int|
        0 <= k < s.len() ==> (if hex {
            spec_hex_digit(#[trigger] s[k])
        } else {
            spec_dec_digit(s[k])
        })
}

/// The unsigned value of a digit string, most significant digit first.
pub open spec fn spec_digits_val(s: Seq<char>, hex: bool) -> int
    decreases s.len(),
{
    if s.len() == 0 {
        0
    } else {
        spec_digits_val(s.drop_last(), hex) * (if hex {
            16int
        } else {
            10int
        }) + spec_digit_val(s.last())
    }
}

/// The signed value of an optionally signed digit string, or `None` if it is
/// not one.
pub open spec fn spec_signed_digits(s: Seq<char>, hex: bool) -> Option<int> {
    let neg = s.len() >= 1 && s[0] == '-';
    let digits = if s.len() >= 1 && (s[0] == '-' || s[0] == '+') {
        s.skip(1)
    } else {
        s
    };
    if digits.len() >= 1 && spec_all_digits(digits, hex) {
        if neg {
            Some(-spec_digits_val(digits, hex))
        } else {
            Some(spec_digits_val(digits, hex))
        }
    } else {
        None
    }
}

/// The integer value of a token: hexadecimal when it starts `0x`/`0X`,
/// decimal otherwise, and only when the value fits a 64-bit signed integer
/// (the parser's working width).
pub open spec fn spec_int_token(t: Seq<char>) -> Option<int> {
    let hex = t.len() >= 2 && t[0] == '0' && (t[1] == 'x' || t[1] == 'X');
    let v = if hex {
        spec_signed_digits(t.skip(2), true)
    } else {
        spec_signed_digits(t, false)
    };
    match v {
        Some(x) => if i64::MIN <= x <= i64::MAX {
            Some(x)
        } else {
            None
        },
        None => None,
    }
}

/// The value of a digit in the given base, or `None`.
fn digit_val(c: char, hex: bool) -> (r: Option<u64>)
    ensures
        hex && spec_hex_digit(c) ==> (r matches Some(d) && d == spec_digit_val(c)),
        hex && !spec_hex_digit(c) ==> r is None,
        !hex && spec_dec_digit(c) ==> (r matches Some(d) && d == spec_digit_val(c)),
        !hex && !spec_dec_digit(c) ==> r is None,
{
    let u = c as u32;
    if 48 <= u && u <= 57 {
        Some((u - 48) as u64)
    } else if hex && 97 <= u && u <= 102 {
        Some((u - 87) as u64)
    } else if hex && 65 <= u && u <= 70 {
        Some((u - 55) as u64)
    } else {
        None
    }
}

/// Digit-string values are monotone in their prefixes.
proof fn lemma_digits_val_prefix(s: Seq<char>, hex: bool, k: int)
    requires
        spec_all_digits(s, hex),
        0 <= k <= s.len(),
    ensures
        0 <= spec_digits_val(s.subrange(0, k), hex) <= spec_digits_val(s, hex),
    decreases s.len(),
{
    let base: int = if hex {
        16
    } else {
        10
    };
    if s.len() == 0 {
        assert(s.subrange(0, 0) =~= s);
    } else {
        let pre = s.drop_last();
        assert(forall|j: int| 0 <= j < pre.len() ==> pre[j] == s[j]);
        lemma_digits_val_prefix(pre, hex, if k <= pre.len() {
            k
        } else {
            pre.len() as int
        });
        assert(pre.subrange(0, pre.len() as int) =~= pre);
        assert(spec_digit_val(s.last()) >= 0);
        assert(spec_digits_val(pre, hex) * base >= spec_digits_val(pre, hex)) by (nonlinear_arith)
            requires
                spec_digits_val(pre, hex) >= 0,
                base >= 10,
        ;
        if k <= pre.len() {
            assert(s.subrange(0, k) =~= pre.subrange(0, k));
        } else {
            assert(s.subrange(0, k) =~= s);
        }
    }
}

/// Parse an optionally signed digit string to a 64-bit integer, `None` when
/// it is malformed or out of range.
fn parse_digits_i64(t: &[char], start: usize, hex: bool) -> (r: Option<i64>)
    requires
        start <= t@.len(),
    ensures
        ({
            let body = t@.skip(start as int);
            match spec_signed_digits(body, hex) {
                Some(v) => if i64::MIN <= v <= i64::MAX {
                    r matches Some(d) && d == v
                } else {
                    r is None
                },
                None => r is None,
            }
        }),
{
    let ghost body = t@.skip(start as int);
    if start >= t.len() {
        return None;
    }
    let neg = t[start] == '-';
    let dstart: usize = if t[start] == '-' || t[start] == '+' {
        start + 1
    } else {
        start
    };
    let ghost digits = t@.skip(dstart as int);
    proof {
        assert(body[0] == t@[start as int]);
        if dstart > start {
            assert(body.skip(1) =~= digits);
        } else {
            assert(body =~= digits);
        }
    }
    if dstart >= t.len() {
        return None;
    }
    let base: u64 = if hex {
        16
    } else {
        10
    };
    let limit: u64 = if neg {
        0x8000_0000_0000_0000
    } else {
        0x7FFF_FFFF_FFFF_FFFF
    };
    let mut mag: u64 = 0;
    let mut i: usize = dstart;
    proof {
        assert(t@.subrange(dstart as int, dstart as int) =~= Seq::<char>::empty());
    }
    while i < t.len()
        invariant
            start < t@.len(),
            dstart <= i <= t@.len(),
            dstart < t@.len(),
            neg == (t@[start as int] == '-'),
            dstart == (if t@[start as int] == '-' || t@[start as int] == '+' {
                start + 1
            } else {
                start as int
            }),
            digits == t@.skip(dstart as int),
            base == (if hex {
                16u64
            } else {
                10u64
            }),
            limit == (if neg {
                0x8000_0000_0000_0000u64
            } else {
                0x7FFF_FFFF_FFFF_FFFFu64
            }),
            spec_all_digits(t@.subrange(dstart as int, i as int), hex),
            mag == spec_digits_val(t@.subrange(dstart as int, i as int), hex),
            mag <= limit,
        decreases t@.len() - i,
    {
        let ghost pre = t@.subrange(dstart as int, i as int);
        let d = match digit_val(t[i], hex) {
            Some(d) => d,
            None => {
                proof {
                    let di = (i - dstart) as int;
                    assert(digits[di] == t@[i as int]);
                    assert(!spec_all_digits(digits, hex));
                    let body = t@.skip(start as int);
                    assert(body[0] == t@[start as int]);
                    if dstart > start {
                        assert(body.skip(1) =~= digits);
                    } else {
                        assert(body =~= digits);
                    }
                }
                return None;
            },
        };
        proof {
            assert((limit - d) / (base as int) * base <= limit - d) by (nonlinear_arith)
                requires
                    base > 0,
                    d <= limit,
            ;
        }
        if mag > (limit - d) / base {
            proof {
                assert(mag * base + d > limit) by (nonlinear_arith)
                    requires
                        mag > (limit - d) / (base as int),
                        base > 0,
                        d <= limit,
                ;
                if spec_all_digits(digits, hex) {
                    let pre1 = t@.subrange(dstart as int, i as int + 1);
                    assert(pre1.drop_last() =~= pre);
                    assert(pre1.last() == t@[i as int]);
                    assert(spec_all_digits(pre1, hex));
                    assert(spec_digits_val(pre1, hex) == mag * base + d);
                    assert(digits.subrange(0, i - dstart + 1) =~= pre1);
                    lemma_digits_val_prefix(digits, hex, i - dstart + 1);
                    assert(spec_digits_val(digits, hex) > limit);
                }
                let body = t@.skip(start as int);
                assert(body[0] == t@[start as int]);
                if dstart > start {
                    assert(body.skip(1) =~= digits);
                } else {
                    assert(body =~= digits);
                }
            }
            return None;
        }
        proof {
            assert(mag * base <= (limit - d) / (base as int) * base) by (nonlinear_arith)
                requires
                    mag <= (limit - d) / (base as int),
                    base > 0,
            ;
            let pre1 = t@.subrange(dstart as int, i as int + 1);
            assert(pre1.drop_last() =~= pre);
            assert(pre1.last() == t@[i as int]);
        }
        mag = mag * base + d;
        i = i + 1;
    }
    proof {
        assert(t@.subrange(dstart as int, i as int) =~= digits);
        let bodyg = t@.skip(start as int);
        assert(bodyg[0] == t@[start as int]);
        if dstart > start {
            assert(bodyg.skip(1) =~= digits);
        } else {
            assert(bodyg =~= digits);
        }
    }
    if neg {
        if mag == 0x8000_0000_0000_0000 {
            Some(i64::MIN)
        } else {
            Some(-(mag as i64))
        }
    } else {
        Some(mag as i64)
    }
}

/// Parse a token as an integer: decimal, or hexadecimal after `0x`/`0X`.
pub(crate) fn parse_int_chars(t: &[char]) -> (r: Option<i64>)
    ensures
        match spec_int_token(t@) {
            Some(v) => r matches Some(d) && d == v,
            None => r is None,
        },
{
    let hex = t.len() >= 2 && t[0] == '0' && (t[1] == 'x' || t[1] == 'X');
    if hex {
        parse_digits_i64(t, 2, true)
    } else {
        proof {
            assert(t@.skip(0) =~= t@);
        }
        parse_digits_i64(t, 0, false)
    }
}

/// What `parse_imm` returns: the token's integer value truncated to 32
/// bits; otherwise the label's address relative to the PC, with wrap-around;
/// otherwise nothing.
pub open spec fn spec_parse_imm(t: Seq<char>, labels: Map<Seq<char>, u32>, pc: u32) -> Option<
    u32,
> {
    match spec_int_token(t) {
        Some(v) => Some(v as u32),
        None => if labels.contains_key(t) {
            Some(wrap_sub(labels[t], pc))
        } else {
            None
        },
    }
}

pub(crate) fn parse_imm_chars(t: &[char], labels: &LabelTable, pc: u32) -> (r: Result<
    u32,
    AssemblerError,
>)
    requires
        labels.wf(),
    ensures
        spec_parse_imm(t@, labels@, pc) matches Some(v) ==> r == Ok::<u32, AssemblerError>(v),
        spec_parse_imm(t@, labels@, pc) is None ==> (r matches Err(e) && (e matches
            AssemblerError::InvalidImmediateError(s) && s@ == t@)),
{
    match parse_int_chars(t) {
        Some(d) => {
            let w: u32 = #[verifier::truncate] (d as u32);
            proof {
                let v = spec_int_token(t@)->Some_0;
                assert(w == v as u32);
            }
            Ok(w)
        },
        None => {
            match labels.get_chars(t) {
                Some(a) => Ok(a.wrapping_sub(pc)),
                None => {
                    let mut owned: Vec<char> = Vec::new();
                    let mut i: usize = 0;
                    while i < t.len()
                        invariant
                            i <= t@.len(),
                            owned@ == t@.subrange(0, i as int),
                        decreases t@.len() - i,
                    {
                        owned.push(t[i]);
                        proof {
                            assert(owned@ =~= t@.subrange(0, i as int + 1));
                        }
                        i = i + 1;
                    }
                    proof {
                        assert(owned@ =~= t@);
                    }
                    Err(AssemblerError::InvalidImmediateError(chars_to_string(&owned)))
                },
            }
        },
    }
}

/// Parse a label or an immediate literal into an integer.
pub fn parse_imm(s: &str, labels: &LabelTable, pc: u32) -> (r: Result<u32, AssemblerError>)
    requires
        labels.wf(),
    ensures
        spec_parse_imm(s@, labels@, pc) matches Some(v) ==> r == Ok::<u32, AssemblerError>(v),
        spec_parse_imm(s@, labels@, pc) is None ==> (r matches Err(e) && (e matches
            AssemblerError::InvalidImmediateError(t) && t@ == s@)),
{
    let cs = str_chars(s);
    parse_imm_chars(cs.as_slice(), labels, pc)
}

/// The register number a token names, if any: `x0`-`x31` (digits only after
/// the `x`), or an ABI register name.
pub open spec fn spec_reg_of(t: Seq<char>) -> Option<u8> {
    if t.len() >= 1 && t[0] == 'x' {
        let digits = t.skip(1);
        if digits.len() >= 1 && spec_all_digits(digits, false) && spec_digits_val(digits, false)
            <= 31 {
            Some(spec_digits_val(digits, false) as u8)
        } else {
            None
        }
    } else {
        spec_abi_of(t)
    }
}

pub(crate) fn reg_of_chars(t: &[char]) -> (r: Option<u8>)
    ensures
        r == spec_reg_of(t@),
{
    if t.len() >= 1 && t[0] == 'x' {
        let ghost digits = t@.skip(1);
        if t.len() < 2 {
            return None;
        }
        let mut val: u64 = 0;
        let mut i: usize = 1;
        proof {
            assert(t@.subrange(1, 1) =~= Seq::<char>::empty());
        }
        while i < t.len()
            invariant
                1 <= i <= t@.len(),
                1 < t@.len(),
                t@[0] == 'x',
                digits == t@.skip(1),
                spec_all_digits(t@.subrange(1, i as int), false),
                val == spec_digits_val(t@.subrange(1, i as int), false),
                val <= 31,
            decreases t@.len() - i,
        {
            let ghost pre = t@.subrange(1, i as int);
            let d = match digit_val(t[i], false) {
                Some(d) => d,
                None => {
                    proof {
                        assert(digits[i - 1] == t@[i as int]);
                        assert(!spec_all_digits(digits, false));
                    }
                    return None;
                },
            };
            proof {
                let pre1 = t@.subrange(1, i as int + 1);
                assert(pre1.drop_last() =~= pre);
                assert(pre1.last() == t@[i as int]);
            }
            let next = val * 10 + d;
            if next > 31 {
                proof {
                    if spec_all_digits(digits, false) {
                        let pre1 = t@.subrange(1, i as int + 1);
                        assert(spec_all_digits(pre1, false));
                        assert(spec_digits_val(pre1, false) == next);
                        assert(digits.subrange(0, i as int) =~= pre1);
                        lemma_digits_val_prefix(digits, false, i as int);
                        assert(spec_digits_val(digits, false) > 31);
                    }
                }
                return None;
            }
            val = next;
            i = i + 1;
        }
        proof {
            assert(t@.subrange(1, i as int) =~= digits);
        }
        Some(val as u8)
    } else {
        abi_of_chars(t)
    }
}

/// Match a register number or name to its integer number.
pub fn match_register(reg: &str) -> (r: Result<u8, AssemblerError>)
    ensures
        spec_reg_of(reg@) matches Some(n) ==> r == Ok::<u8, AssemblerError>(n),
        spec_reg_of(reg@) is None ==> (r matches Err(e) && (e matches
            AssemblerError::NoSuchRegisterError(s) && s@ == reg@)),
{
    let cs = str_chars(reg);
    match reg_of_chars(cs.as_slice()) {
        Some(n) => Ok(n),
        None => Err(AssemblerError::NoSuchRegisterError(chars_to_string(&cs))),
    }
}

/// The canonical decimal digits of a non-negative value.
pub open spec fn spec_dec_chars(v: int) -> Seq<char>
    recommends
        v >= 0,
    decreases v,
{
    if v < 10 {
        seq![((48 + v) as u8) as char]
    } else {
        spec_dec_chars(v / 10).push(((48 + v % 10) as u8) as char)
    }
}

/// The canonical decimal token of a value parses back to that value.
pub proof fn lemma_dec_chars_value(v: int)
    requires
        0 <= v <= 0xFFFF_FFFF,
    ensures
        spec_int_token(spec_dec_chars(v)) == Some(v),
{
    lemma_dec_chars_digits(v);
    let t = spec_dec_chars(v);
    assert(48 <= t[0] as u32 <= 57);
    assert(t[0] != '0' || v < 10) by {
        if v >= 10 {
            lemma_dec_chars_leading(v);
        }
    }
    assert(!(t.len() >= 2 && t[0] == '0' && (t[1] == 'x' || t[1] == 'X'))) by {
        if t.len() >= 2 {
            lemma_dec_chars_leading(v);
            assert(spec_dec_digit(t[1]));
        }
    }
    assert(t[0] != '-' && t[0] != '+');
    assert(spec_signed_digits(t, false) == Some(spec_digits_val(t, false)));
}

/// Every character of the canonical decimal form is a digit, and the digits
/// evaluate back to the value.
proof fn lemma_dec_chars_digits(v: int)
    requires
        v >= 0,
    ensures
        spec_dec_chars(v).len() >= 1,
        spec_all_digits(spec_dec_chars(v), false),
        spec_digits_val(spec_dec_chars(v), false) == v,
    decreases v,
{
    let t = spec_dec_chars(v);
    if v < 10 {
        let c = ((48 + v) as u8) as char;
        assert(c as u32 == 48 + v);
        assert(t =~= seq![c]);
        assert(t.drop_last() =~= Seq::<char>::empty());
        assert(t.last() == c);
        assert(spec_dec_digit(c));
        assert(spec_digits_val(t, false) == spec_digits_val(t.drop_last(), false) * 10
            + spec_digit_val(t.last()));
        assert(spec_digits_val(Seq::<char>::empty(), false) == 0);
    } else {
        assert(0 <= v / 10 < v) by (nonlinear_arith)
            requires
                v >= 10,
        ;
        lemma_dec_chars_digits(v / 10);
        let c = ((48 + v % 10) as u8) as char;
        assert(c as u32 == 48 + v % 10);
        assert(t.drop_last() =~= spec_dec_chars(v / 10));
        assert(t.last() == c);
        assert forall|k: int| 0 <= k < t.len() implies spec_dec_digit(t[k]) by {
            if k < t.len() - 1 {
                assert(t[k] == spec_dec_chars(v / 10)[k]);
            } else {
                assert(t[k] == c);
            }
        }
        assert(spec_digits_val(t, false) == (v / 10) * 10 + v % 10);
        assert((v / 10) * 10 + v % 10 == v) by (nonlinear_arith)
            requires
                v >= 0,
        ;
    }
}

/// A multi-digit canonical decimal form does not start with a zero.
proof fn lemma_dec_chars_leading(v: int)
    requires
        v >= 10,
    ensures
        spec_dec_chars(v).len() >= 2,
        spec_dec_chars(v)[0] != '0',
        spec_dec_digit(spec_dec_chars(v)[1]),
    decreases v,
{
    let t = spec_dec_chars(v);
    lemma_dec_chars_digits(v / 10);
    lemma_dec_chars_digits(v);
    if v / 10 < 10 {
        let q = v / 10;
        assert(1 <= q) by (nonlinear_arith)
            requires
                10 <= v,
                q == v / 10,
        ;
        assert(t[0] == ((48 + q) as u8) as char);
        assert((((48 + q) as u8) as char) as u32 == 48 + q);
        assert(('0' as u32) == 48);
    } else {
        lemma_dec_chars_leading(v / 10);
        assert(t[0] == spec_dec_chars(v / 10)[0]);
        assert(spec_dec_digit(t[1]));
    }
}

/// The canonical decimal token of a 32-bit value, as characters.
pub(crate) fn dec_chars(v: u32) -> (r: Vec<char>)
    ensures
        r@ == spec_dec_chars(v as int),
{
    let mut low_rev: Vec<char> = Vec::new();
    let mut x: u32 = v;
    proof {
        assert(spec_dec_chars(v as int) =~= spec_dec_chars(v as int) + low_rev@.reverse());
    }
    while x >= 10
        invariant
            spec_dec_chars(v as int) == spec_dec_chars(x as int) + low_rev@.reverse(),
        decreases x,
    {
        let c = ((48 + x % 10) as u8) as char;
        proof {
            let prev = low_rev@;
            assert((prev.push(c)).reverse() =~= seq![c] + prev.reverse());
            assert(spec_dec_chars(x as int) == spec_dec_chars(x as int / 10).push(c));
            assert(spec_dec_chars(x as int) + prev.reverse() =~= spec_dec_chars(x as int / 10) + (
            prev.push(c)).reverse());
        }
        low_rev.push(c);
        x = x / 10;
    }
    let mut r: Vec<char> = Vec::new();
    r.push(((48 + x) as u8) as char);
    proof {
        assert(r@ =~= spec_dec_chars(x as int));
    }
    let mut j: usize = low_rev.len();
    while j > 0
        invariant
            j <= low_rev@.len(),
            spec_dec_chars(v as int) == spec_dec_chars(x as int) + low_rev@.reverse(),
            r@ == spec_dec_chars(x as int) + low_rev@.reverse().take(low_rev@.len() - j),
        decreases j,
    {
        j = j - 1;
        let c = low_rev[j];
        proof {
            let rev = low_rev@.reverse();
            assert(rev[low_rev@.len() - 1 - j] == c);
            assert(rev.take(low_rev@.len() - j) =~= rev.take(low_rev@.len() - 1 - j).push(c));
        }
        r.push(c);
    }
    proof {
        assert(low_rev@.reverse().take(low_rev@.len() as int) =~= low_rev@.reverse());
    }
    r
}


/// A label resolves to a PC-relative offset: for a label defined at address
/// `a` and an instruction assembled at PC `p`, the immediate the assembler
/// encodes is `a - p` modulo 2^32.
pub proof fn lemma_label_offset_pc_relative(
    t: Seq<char>,
    labels: Map<Seq<char>, u32>,
    a: u32,
    p: u32,
)
    requires
        spec_int_token(t) is None,
        labels.contains_key(t),
        labels[t] == a,
    ensures
        spec_parse_imm(t, labels, p) == Some(wrap_sub(a, p)),
{
}

} // verus!
