//! The assembler: encoding of a single base instruction from its tokens,
//! per-line assembly with label handling and pseudo-instruction expansion,
//! and whole-program assembly, single-pass or two-pass (the latter resolves
//! forward label references).

use vstd::prelude::*;
use crate::constants::{
    OPCODE_ARITHMETIC, OPCODE_ARITHMETIC_IMM, OPCODE_AUIPC, OPCODE_BRANCH, OPCODE_JAL, OPCODE_JALR,
    OPCODE_LOAD, OPCODE_LUI, OPCODE_STORE,
};
use crate::encode::{
    encode_b_imm, encode_func3, encode_func7, encode_i_imm, encode_j_imm, encode_opcode, encode_rd,
    encode_rs1, encode_rs2, encode_s_imm, encode_u_imm, spec_encode_b_imm, spec_encode_func3,
    spec_encode_func7, spec_encode_i_imm, spec_encode_j_imm, spec_encode_opcode, spec_encode_rd,
    spec_encode_rs1, spec_encode_rs2, spec_encode_s_imm, spec_encode_u_imm,
};
use crate::error::{spec_err_matches, AsmIssue, AssemblerError};
use crate::exec::{wadd, wrap_add};
use crate::labels::LabelTable;
use crate::parse::{
    func3_of_chars, func7_of_chars, opcode_of_chars, parse_imm_chars, reg_of_chars, spec_func3_of,
    spec_func7_of, spec_opcode_of, spec_parse_imm, spec_reg_of,
};
use crate::pseudo::{expand_chars, spec_expand, token_list_view, token_lists_view};
use crate::text::{chars_to_string, copy_chars, str_chars};
use crate::tokenizer::{spec_tokenize, tokenize_core};

verus! {

/// The register named in token `idx`, or the error that slot reports.
pub open spec fn spec_reg_slot(toks: Seq<Seq<char>>, idx: int) -> Result<u8, AsmIssue> {
    if idx >= toks.len() {
        Err(AsmIssue::TooFewTokens)
    } else {
        match spec_reg_of(toks[idx]) {
            Some(n) => Ok(n),
            None => Err(AsmIssue::NoSuchRegister(toks[idx])),
        }
    }
}

/// The immediate in token `idx`, or the error that slot reports.
pub open spec fn spec_imm_slot(
    toks: Seq<Seq<char>>,
    idx: int,
    labels: Map<Seq<char>, u32>,
    pc: u32,
) -> Result<u32, AsmIssue> {
    if idx >= toks.len() {
        Err(AsmIssue::TooFewTokens)
    } else {
        match spec_parse_imm(toks[idx], labels, pc) {
            Some(v) => Ok(v),
            None => Err(AsmIssue::InvalidImmediate(toks[idx])),
        }
    }
}

/// The encoding of one base instruction given as tokens
/// `[mnemonic, operands...]`, against the label table and the current PC.
/// Operand slots are chosen by the instruction format, which the opcode
/// determines; the destination register is read first, then the sources,
/// then the immediate.
#[verifier::opaque]
pub open spec fn spec_encode_base(
    toks: Seq<Seq<char>>,
    labels: Map<Seq<char>, u32>,
    pc: u32,
) -> Result<u32, AsmIssue> {
    if toks.len() == 0 {
        Err(AsmIssue::TooFewTokens)
    } else {
        let op = toks[0];
        match spec_opcode_of(op) {
            None => Err(AsmIssue::InvalidOperation(op)),
            Some(opcode) => {
                let is_r = opcode == OPCODE_ARITHMETIC;
                let is_i = opcode == OPCODE_ARITHMETIC_IMM || opcode == OPCODE_JALR || opcode
                    == OPCODE_LOAD;
                let is_u = opcode == OPCODE_LUI || opcode == OPCODE_AUIPC;
                let is_j = opcode == OPCODE_JAL;
                let is_b = opcode == OPCODE_BRANCH;
                let is_s = opcode == OPCODE_STORE;
                let rd_r = if is_r || is_i || is_u || is_j {
                    spec_reg_slot(toks, 1)
                } else {
                    Ok(0u8)
                };
                match rd_r {
                    Err(e) => Err(e),
                    Ok(rd) => {
                        let rs1_r = if is_i || is_r || is_b || is_s {
                            spec_reg_slot(
                                toks,
                                if opcode == OPCODE_LOAD || is_s {
                                    3
                                } else if is_b {
                                    1
                                } else {
                                    2
                                },
                            )
                        } else {
                            Ok(0u8)
                        };
                        match rs1_r {
                            Err(e) => Err(e),
                            Ok(rs1) => {
                                let rs2_r = if is_r || is_s || is_b {
                                    spec_reg_slot(
                                        toks,
                                        if is_s {
                                            1
                                        } else if is_b {
                                            2
                                        } else {
                                            3
                                        },
                                    )
                                } else {
                                    Ok(0u8)
                                };
                                match rs2_r {
                                    Err(e) => Err(e),
                                    Ok(rs2) => {
                                        let imm_r = if is_i {
                                            spec_imm_slot(
                                                toks,
                                                if opcode == OPCODE_LOAD {
                                                    2
                                                } else {
                                                    3
                                                },
                                                labels,
                                                pc,
                                            )
                                        } else if is_u || is_j || is_s {
                                            spec_imm_slot(toks, 2, labels, pc)
                                        } else if is_b {
                                            spec_imm_slot(toks, 3, labels, pc)
                                        } else {
                                            Ok(0u32)
                                        };
                                        match imm_r {
                                            Err(e) => Err(e),
                                            Ok(imm) => {
                                                let func3 = if is_i || is_r || is_b || is_s {
                                                    spec_func3_of(op)
                                                } else {
                                                    0u8
                                                };
                                                let func7 = if is_r {
                                                    spec_func7_of(op)
                                                } else {
                                                    0u8
                                                };
                                                let imm_enc = if is_i {
                                                    spec_encode_i_imm(imm)
                                                } else if is_u {
                                                    spec_encode_u_imm(imm)
                                                } else if is_j {
                                                    spec_encode_j_imm(imm)
                                                } else if is_b {
                                                    spec_encode_b_imm(imm)
                                                } else if is_s {
                                                    spec_encode_s_imm(imm)
                                                } else {
                                                    0u32
                                                };
                                                Ok(
                                                    (spec_encode_opcode(opcode) | spec_encode_rd(rd)
                                                        | spec_encode_func3(func3)
                                                        | spec_encode_rs1(rs1) | spec_encode_rs2(
                                                        rs2,
                                                    ) | spec_encode_func7(func7) | imm_enc) as u32,
                                                )
                                            },
                                        }
                                    },
                                }
                            },
                        }
                    },
                }
            },
        }
    }
}

fn reg_slot(toks: &Vec<Vec<char>>, idx: usize) -> (r: Result<u8, AssemblerError>)
    ensures
        ({
            let res = spec_reg_slot(token_list_view(toks@), idx as int);
            match res {
                Ok(n) => r == Ok::<u8, AssemblerError>(n),
                Err(i) => r matches Err(e) && spec_err_matches(e, i),
            }
        }),
{
    proof {
        if (idx as int) < toks@.len() {
            assert(token_list_view(toks@)[idx as int] == toks@[idx as int]@);
        }
    }
    if idx >= toks.len() {
        return Err(AssemblerError::TooFewTokensError);
    }
    match reg_of_chars(toks[idx].as_slice()) {
        Some(n) => Ok(n),
        None => Err(
            AssemblerError::NoSuchRegisterError(chars_to_string(&copy_chars(toks[idx].as_slice()))),
        ),
    }
}

fn imm_slot(toks: &Vec<Vec<char>>, idx: usize, labels: &LabelTable, pc: u32) -> (r: Result<
    u32,
    AssemblerError,
>)
    requires
        labels.wf(),
    ensures
        ({
            let res = spec_imm_slot(token_list_view(toks@), idx as int, labels@, pc);
            match res {
                Ok(v) => r == Ok::<u32, AssemblerError>(v),
                Err(i) => r matches Err(e) && spec_err_matches(e, i),
            }
        }),
{
    proof {
        if (idx as int) < toks@.len() {
            assert(token_list_view(toks@)[idx as int] == toks@[idx as int]@);
        }
    }
    if idx >= toks.len() {
        return Err(AssemblerError::TooFewTokensError);
    }
    parse_imm_chars(toks[idx].as_slice(), labels, pc)
}

/// Encode one base instruction from its tokens.
fn encode_base(toks: &Vec<Vec<char>>, labels: &LabelTable, pc: u32) -> (r: Result<
    u32,
    AssemblerError,
>)
    requires
        labels.wf(),
    ensures
        ({
            let res = spec_encode_base(token_list_view(toks@), labels@, pc);
            match res {
                Ok(w) => r == Ok::<u32, AssemblerError>(w),
                Err(i) => r matches Err(e) && spec_err_matches(e, i),
            }
        }),
{
    let ghost tv = token_list_view(toks@);
    proof {
        reveal(spec_encode_base);
    }
    if toks.len() == 0 {
        return Err(AssemblerError::TooFewTokensError);
    }
    proof {
        assert(tv[0] == toks@[0]@);
    }
    let opcode = match opcode_of_chars(toks[0].as_slice()) {
        Some(o) => o,
        None => {
            return Err(
                AssemblerError::InvalidOperationError(
                    chars_to_string(&copy_chars(toks[0].as_slice())),
                ),
            );
        },
    };
    let is_r = opcode == OPCODE_ARITHMETIC;
    let is_i = opcode == OPCODE_ARITHMETIC_IMM || opcode == OPCODE_JALR || opcode == OPCODE_LOAD;
    let is_u = opcode == OPCODE_LUI || opcode == OPCODE_AUIPC;
    let is_j = opcode == OPCODE_JAL;
    let is_b = opcode == OPCODE_BRANCH;
    let is_s = opcode == OPCODE_STORE;
    let rd = if is_r || is_i || is_u || is_j {
        match reg_slot(toks, 1) {
            Ok(n) => n,
            Err(e) => {
                return Err(e);
            },
        }
    } else {
        0
    };
    let rs1 = if is_i || is_r || is_b || is_s {
        let idx: usize = if opcode == OPCODE_LOAD || is_s {
            3
        } else if is_b {
            1
        } else {
            2
        };
        match reg_slot(toks, idx) {
            Ok(n) => n,
            Err(e) => {
                return Err(e);
            },
        }
    } else {
        0
    };
    let rs2 = if is_r || is_s || is_b {
        let idx: usize = if is_s {
            1
        } else if is_b {
            2
        } else {
            3
        };
        match reg_slot(toks, idx) {
            Ok(n) => n,
            Err(e) => {
                return Err(e);
            },
        }
    } else {
        0
    };
    let imm = if is_i {
        let idx: usize = if opcode == OPCODE_LOAD {
            2
        } else {
            3
        };
        match imm_slot(toks, idx, labels, pc) {
            Ok(v) => v,
            Err(e) => {
                return Err(e);
            },
        }
    } else if is_u || is_j || is_s {
        match imm_slot(toks, 2, labels, pc) {
            Ok(v) => v,
            Err(e) => {
                return Err(e);
            },
        }
    } else if is_b {
        match imm_slot(toks, 3, labels, pc) {
            Ok(v) => v,
            Err(e) => {
                return Err(e);
            },
        }
    } else {
        0
    };
    let func3 = if is_i || is_r || is_b || is_s {
        func3_of_chars(toks[0].as_slice())
    } else {
        0
    };
    let func7 = if is_r {
        func7_of_chars(toks[0].as_slice())
    } else {
        0
    };
    let imm_enc = if is_i {
        encode_i_imm(imm)
    } else if is_u {
        encode_u_imm(imm)
    } else if is_j {
        encode_j_imm(imm)
    } else if is_b {
        encode_b_imm(imm)
    } else if is_s {
        encode_s_imm(imm)
    } else {
        0
    };
    Ok(
        encode_opcode(opcode) | encode_rd(rd) | encode_func3(func3) | encode_rs1(rs1) | encode_rs2(
            rs2,
        ) | encode_func7(func7) | imm_enc,
    )
}

/// The label table after one line: if the line's first token ends in `:`,
/// its prefix is bound to the current PC; a line of more than 5 tokens is
/// rejected before its label is seen.
pub open spec fn spec_line_labels(
    line: Seq<char>,
    labels: Map<Seq<char>, u32>,
    pc: u32,
) -> Map<Seq<char>, u32> {
    let toks = spec_tokenize(line);
    if toks.len() == 0 || toks.len() > 5 {
        labels
    } else if toks[0].len() > 0 && toks[0].last() == ':' {
        labels.insert(toks[0].drop_last(), pc)
    } else {
        labels
    }
}

/// The machine words that a list of base instructions encodes to, the PC
/// advancing by 4 for each.
pub open spec fn spec_encode_list(
    list: Seq<Seq<Seq<char>>>,
    labels: Map<Seq<char>, u32>,
    pc: u32,
) -> Result<Seq<u32>, AsmIssue>
    decreases list.len(),
{
    if list.len() == 0 {
        Ok(Seq::empty())
    } else {
        match spec_encode_base(list[0], labels, pc) {
            Err(e) => Err(e),
            Ok(w) => match spec_encode_list(list.skip(1), labels, wrap_add(pc, 4)) {
                Err(e) => Err(e),
                Ok(ws) => Ok(seq![w] + ws),
            },
        }
    }
}

/// The machine words one source line assembles to at the given PC: none for
/// a blank or label-only line, otherwise the encodings of the base
/// instructions the line expands to. The label table used is the one after
/// this line's own label, so a label may refer to its own line.
pub open spec fn spec_assemble_ir(line: Seq<char>, labels: Map<Seq<char>, u32>, pc: u32) -> Result<
    Seq<u32>,
    AsmIssue,
> {
    let toks = spec_tokenize(line);
    if toks.len() == 0 {
        Ok(Seq::empty())
    } else if toks.len() > 5 {
        Err(AsmIssue::TooManyTokens)
    } else {
        let labels2 = spec_line_labels(line, labels, pc);
        let rest = if toks[0].len() > 0 && toks[0].last() == ':' {
            toks.skip(1)
        } else {
            toks
        };
        if rest.len() == 0 {
            Ok(Seq::empty())
        } else {
            match spec_expand(rest) {
                Err(e) => Err(e),
                Ok(list) => spec_encode_list(list, labels2, pc),
            }
        }
    }
}

#[verifier::rlimit(60)]
pub(crate) fn assemble_ir_core(line: &[char], labels: &mut LabelTable, pc: u32) -> (r: Result<
    Vec<u32>,
    AssemblerError,
>)
    requires
        old(labels).wf(),
    ensures
        final(labels).wf(),
        final(labels)@ == spec_line_labels(line@, old(labels)@, pc),
        match spec_assemble_ir(line@, old(labels)@, pc) {
            Ok(ws) => r matches Ok(v) && v@ == ws,
            Err(i) => r matches Err(e) && spec_err_matches(e, i),
        },
{
    let ghost lv = line@;
    let toks = tokenize_core(line);
    let ghost tv = toks@.map_values(|t: Vec<char>| t@);
    if toks.len() == 0 {
        return Ok(Vec::new());
    }
    if toks.len() > 5 {
        return Err(AssemblerError::TooManyTokensError);
    }
    proof {
        assert(tv[0] == toks@[0]@);
    }
    let t0_len = toks[0].len();
    let has_label = toks[0][t0_len - 1] == ':';
    if has_label {
        let mut name = copy_chars(toks[0].as_slice());
        name.pop();
        proof {
            assert(name@ =~= tv[0].drop_last());
        }
        labels.insert_chars(name, pc);
    }
    let start: usize = if has_label {
        1
    } else {
        0
    };
    if toks.len() == start {
        return Ok(Vec::new());
    }
    let mut rest: Vec<Vec<char>> = Vec::new();
    let mut i: usize = start;
    while i < toks.len()
        invariant
            start <= i <= toks@.len(),
            rest@.len() == i - start,
            forall|k: int|
                0 <= k < i - start ==> (#[trigger] rest@[k])@ == toks@[k + start]@,
        decreases toks@.len() - i,
    {
        rest.push(copy_chars(toks[i].as_slice()));
        i = i + 1;
    }
    proof {
        if has_label {
            assert(token_list_view(rest@) =~= tv.skip(1));
        } else {
            assert(token_list_view(rest@) =~= tv);
        }
    }
    let list = match expand_chars(&rest) {
        Ok(list) => list,
        Err(e) => {
            return Err(e);
        },
    };
    let ghost lists = token_lists_view(list@);
    let ghost lmap = labels@;
    let mut words: Vec<u32> = Vec::new();
    let mut cur_pc = pc;
    let mut j: usize = 0;
    proof {
        assert(lists.skip(0) =~= lists);
    }
    while j < list.len()
        invariant
            j <= list@.len(),
            labels.wf(),
            labels@ == lmap,
            lv == line@,
            lmap == spec_line_labels(lv, old(labels)@, pc),
            spec_assemble_ir(lv, old(labels)@, pc) == spec_encode_list(lists, lmap, pc),
            lists == token_lists_view(list@),
            match spec_encode_list(lists.skip(j as int), lmap, cur_pc) {
                Ok(ws) => spec_encode_list(lists, lmap, pc) == Ok::<Seq<u32>, AsmIssue>(
                    words@ + ws,
                ),
                Err(e) => spec_encode_list(lists, lmap, pc) == Err::<Seq<u32>, AsmIssue>(e),
            },
        decreases list@.len() - j,
    {
        proof {
            assert(lists.skip(j as int)[0] == lists[j as int]);
            assert(lists.skip(j as int).skip(1) =~= lists.skip(j as int + 1));
            assert(lists[j as int] == token_list_view(list@[j as int]@));
        }
        let w = match encode_base(&list[j], labels, cur_pc) {
            Ok(w) => w,
            Err(e) => {
                return Err(e);
            },
        };
        let ghost prev_words = words@;
        words.push(w);
        proof {
            let ghost tail = lists.skip(j as int + 1);
            assert(match spec_encode_list(tail, lmap, wrap_add(cur_pc, 4)) {
                Ok(ws) => (prev_words + (seq![w] + ws)) =~= (prev_words.push(w) + ws),
                Err(e) => true,
            });
        }
        cur_pc = wadd(cur_pc, 4);
        j = j + 1;
    }
    proof {
        assert(lists.skip(j as int) =~= Seq::<Seq<Seq<char>>>::empty());
        assert(words@ + Seq::<u32>::empty() =~= words@);
    }
    Ok(words)
}

/// Assemble a single instruction line: define its label, if any, at the
/// current PC, and return the machine words it encodes to (none for a blank
/// or label-only line).
pub fn assemble_ir(line: &str, labels: &mut LabelTable, pc: u32) -> (r: Result<
    Vec<u32>,
    AssemblerError,
>)
    requires
        old(labels).wf(),
    ensures
        final(labels).wf(),
        final(labels)@ == spec_line_labels(line@, old(labels)@, pc),
        match spec_assemble_ir(line@, old(labels)@, pc) {
            Ok(ws) => r matches Ok(v) && v@ == ws,
            Err(i) => r matches Err(e) && spec_err_matches(e, i),
        },
{
    let cs = str_chars(line);
    assemble_ir_core(cs.as_slice(), labels, pc)
}


/// The lines of a program text, split on newline characters; a program of
/// `n` newlines has `n + 1` lines.
pub open spec fn spec_lines_rec(s: Seq<char>, cur: Seq<char>, acc: Seq<Seq<char>>) -> Seq<
    Seq<char>,
>
    decreases s.len(),
{
    if s.len() == 0 {
        acc.push(cur)
    } else if s[0] == '\n' {
        spec_lines_rec(s.skip(1), Seq::empty(), acc.push(cur))
    } else {
        spec_lines_rec(s.skip(1), cur.push(s[0]), acc)
    }
}

pub open spec fn spec_lines(s: Seq<char>) -> Seq<Seq<char>> {
    spec_lines_rec(s, Seq::empty(), Seq::empty())
}

fn split_lines(cs: &[char]) -> (r: Vec<Vec<char>>)
    ensures
        r@.map_values(|t: Vec<char>| t@) == spec_lines(cs@),
{
    let ghost s = cs@;
    let mut acc: Vec<Vec<char>> = Vec::new();
    let mut cur: Vec<char> = Vec::new();
    let mut i: usize = 0;
    proof {
        assert(cs@.skip(0) =~= cs@);
        assert(acc@.map_values(|t: Vec<char>| t@) =~= Seq::<Seq<char>>::empty());
        assert(cur@ =~= Seq::<char>::empty());
    }
    while i < cs.len()
        invariant
            i <= cs@.len(),
            cs@ == s,
            spec_lines_rec(cs@.skip(i as int), cur@, acc@.map_values(|t: Vec<char>| t@))
                == spec_lines(s),
        decreases cs@.len() - i,
    {
        let c = cs[i];
        proof {
            assert(cs@.skip(i as int)[0] == cs@[i as int]);
            assert(cs@.skip(i as int).skip(1) =~= cs@.skip(i as int + 1));
            assert(cs@.skip(i as int).len() == cs@.len() - i);
            reveal_with_fuel(spec_lines_rec, 2);
        }
        if c == '\n' {
            let ghost prev = acc@.map_values(|t: Vec<char>| t@);
            let done = cur;
            cur = Vec::new();
            acc.push(done);
            proof {
                assert(acc@.map_values(|t: Vec<char>| t@) =~= prev.push(done@));
                assert(cur@ =~= Seq::<char>::empty());
            }
        } else {
            cur.push(c);
        }
        i = i + 1;
    }
    proof {
        assert(cs@.skip(i as int) =~= Seq::<char>::empty());
        let ghost prev = acc@.map_values(|t: Vec<char>| t@);
        assert(spec_lines(s) == prev.push(cur@));
    }
    let ghost prev = acc@.map_values(|t: Vec<char>| t@);
    acc.push(cur);
    proof {
        assert(acc@.map_values(|t: Vec<char>| t@) =~= prev.push(acc@[acc@.len() - 1]@));
    }
    acc
}

/// The PC after `n` instructions of 4 bytes, with wrap-around.
pub open spec fn spec_advance(pc: u32, n: int) -> u32
    decreases n,
{
    if n <= 0 {
        pc
    } else {
        spec_advance(wrap_add(pc, 4), n - 1)
    }
}

fn advance_pc(pc: u32, n: usize) -> (r: u32)
    ensures
        r == spec_advance(pc, n as int),
{
    let mut cur = pc;
    let mut k: usize = 0;
    while k < n
        invariant
            k <= n,
            spec_advance(pc, n as int) == spec_advance(cur, n - k),
        decreases n - k,
    {
        cur = wadd(cur, 4);
        k = k + 1;
    }
    cur
}

/// The label table and PC after the first pass over the program: every
/// label bound to the address of the instruction that follows it, the PC
/// advancing by 4 for each base instruction a line expands to.
pub open spec fn spec_pass1(
    lines: Seq<Seq<char>>,
    labels: Map<Seq<char>, u32>,
    pc: u32,
) -> Result<(Map<Seq<char>, u32>, u32), AsmIssue>
    decreases lines.len(),
{
    if lines.len() == 0 {
        Ok((labels, pc))
    } else {
        let line = lines[0];
        let toks = spec_tokenize(line);
        if toks.len() == 0 {
            spec_pass1(lines.skip(1), labels, pc)
        } else if toks.len() > 5 {
            Err(AsmIssue::TooManyTokens)
        } else {
            let labels2 = spec_line_labels(line, labels, pc);
            let rest = if toks[0].len() > 0 && toks[0].last() == ':' {
                toks.skip(1)
            } else {
                toks
            };
            if rest.len() == 0 {
                spec_pass1(lines.skip(1), labels2, pc)
            } else {
                match spec_expand(rest) {
                    Err(e) => Err(e),
                    Ok(list) => spec_pass1(
                        lines.skip(1),
                        labels2,
                        spec_advance(pc, list.len() as int),
                    ),
                }
            }
        }
    }
}

#[verifier::rlimit(60)]
fn pass1_core(lines: &Vec<Vec<char>>) -> (r: Result<LabelTable, AssemblerError>)
    ensures
        match spec_pass1(token_list_view(lines@), Map::empty(), 0) {
            Ok(res) => r matches Ok(t) && t.wf() && t@ == res.0,
            Err(i) => r matches Err(e) && spec_err_matches(e, i),
        },
{
    let ghost lsv = token_list_view(lines@);
    let mut labels = LabelTable::new();
    let mut pc: u32 = 0;
    let mut i: usize = 0;
    proof {
        assert(lsv.skip(0) =~= lsv);
    }
    while i < lines.len()
        invariant
            i <= lines@.len(),
            labels.wf(),
            lsv == token_list_view(lines@),
            spec_pass1(lsv.skip(i as int), labels@, pc) == spec_pass1(lsv, Map::empty(), 0),
        decreases lines@.len() - i,
    {
        proof {
            assert(lsv.skip(i as int)[0] == lsv[i as int]);
            assert(lsv.skip(i as int).skip(1) =~= lsv.skip(i as int + 1));
            assert(lsv[i as int] == lines@[i as int]@);
        }
        let toks = tokenize_core(lines[i].as_slice());
        let ghost tv = toks@.map_values(|t: Vec<char>| t@);
        if toks.len() > 0 {
            if toks.len() > 5 {
                return Err(AssemblerError::TooManyTokensError);
            }
            proof {
                assert(tv[0] == toks@[0]@);
            }
            let t0_len = toks[0].len();
            let has_label = toks[0][t0_len - 1] == ':';
            if has_label {
                let mut name = copy_chars(toks[0].as_slice());
                name.pop();
                proof {
                    assert(name@ =~= tv[0].drop_last());
                }
                labels.insert_chars(name, pc);
            }
            let start: usize = if has_label {
                1
            } else {
                0
            };
            if toks.len() > start {
                let mut rest: Vec<Vec<char>> = Vec::new();
                let mut k: usize = start;
                while k < toks.len()
                    invariant
                        start <= k <= toks@.len(),
                        rest@.len() == k - start,
                        forall|m: int|
                            0 <= m < k - start ==> (#[trigger] rest@[m])@ == toks@[m + start]@,
                    decreases toks@.len() - k,
                {
                    rest.push(copy_chars(toks[k].as_slice()));
                    k = k + 1;
                }
                proof {
                    if has_label {
                        assert(token_list_view(rest@) =~= tv.skip(1));
                    } else {
                        assert(token_list_view(rest@) =~= tv);
                    }
                }
                let list = match expand_chars(&rest) {
                    Ok(list) => list,
                    Err(e) => {
                        return Err(e);
                    },
                };
                pc = advance_pc(pc, list.len());
            }
        }
        i = i + 1;
    }
    proof {
        assert(lsv.skip(i as int) =~= Seq::<Seq<char>>::empty());
    }
    Ok(labels)
}

/// The machine words of the second pass: each line assembled in order
/// against the given label table, the PC advancing by 4 per emitted word.
pub open spec fn spec_pass2(lines: Seq<Seq<char>>, labels: Map<Seq<char>, u32>, pc: u32) -> Result<
    Seq<u32>,
    AsmIssue,
>
    decreases lines.len(),
{
    if lines.len() == 0 {
        Ok(Seq::empty())
    } else {
        match spec_assemble_ir(lines[0], labels, pc) {
            Err(e) => Err(e),
            Ok(ws) => match spec_pass2(
                lines.skip(1),
                spec_line_labels(lines[0], labels, pc),
                spec_advance(pc, ws.len() as int),
            ) {
                Err(e) => Err(e),
                Ok(rest) => Ok(ws + rest),
            },
        }
    }
}

#[verifier::rlimit(60)]
fn pass2_core(lines: &Vec<Vec<char>>, labels: &mut LabelTable) -> (r: Result<
    Vec<u32>,
    AssemblerError,
>)
    requires
        old(labels).wf(),
    ensures
        final(labels).wf(),
        match spec_pass2(token_list_view(lines@), old(labels)@, 0) {
            Ok(ws) => r matches Ok(v) && v@ == ws,
            Err(i) => r matches Err(e) && spec_err_matches(e, i),
        },
{
    let ghost lsv = token_list_view(lines@);
    let ghost m0 = labels@;
    let mut words: Vec<u32> = Vec::new();
    let mut pc: u32 = 0;
    let mut i: usize = 0;
    proof {
        assert(lsv.skip(0) =~= lsv);
    }
    while i < lines.len()
        invariant
            i <= lines@.len(),
            labels.wf(),
            lsv == token_list_view(lines@),
            m0 == old(labels)@,
            match spec_pass2(lsv.skip(i as int), labels@, pc) {
                Ok(ws) => spec_pass2(lsv, m0, 0) == Ok::<Seq<u32>, AsmIssue>(words@ + ws),
                Err(e) => spec_pass2(lsv, m0, 0) == Err::<Seq<u32>, AsmIssue>(e),
            },
        decreases lines@.len() - i,
    {
        proof {
            assert(lsv.skip(i as int)[0] == lsv[i as int]);
            assert(lsv.skip(i as int).skip(1) =~= lsv.skip(i as int + 1));
            assert(lsv.skip(i as int).len() == lsv.len() - i);
            assert(lsv[i as int] == lines@[i as int]@);
            reveal_with_fuel(spec_pass2, 2);
        }
        let ghost labels_before = labels@;
        let mut ws = match assemble_ir_core(lines[i].as_slice(), labels, pc) {
            Ok(ws) => ws,
            Err(e) => {
                return Err(e);
            },
        };
        let n = ws.len();
        let ghost prev_words = words@;
        let ghost wsv = ws@;
        words.append(&mut ws);
        proof {
            reveal_with_fuel(spec_pass2, 2);
            assert(labels@ == spec_line_labels(lsv[i as int], labels_before, pc));
            assert(spec_assemble_ir(lsv[i as int], labels_before, pc) == Ok::<Seq<u32>, AsmIssue>(
                wsv,
            ));
            assert(match spec_pass2(
                lsv.skip(i as int + 1),
                spec_line_labels(lsv[i as int], labels_before, pc),
                spec_advance(pc, wsv.len() as int),
            ) {
                Ok(rest) => (prev_words + (wsv + rest)) =~= ((prev_words + wsv) + rest),
                Err(e) => true,
            });
        }
        pc = advance_pc(pc, n);
        i = i + 1;
    }
    proof {
        assert(lsv.skip(i as int) =~= Seq::<Seq<char>>::empty());
        assert(words@ + Seq::<u32>::empty() =~= words@);
    }
    Ok(words)
}

/// What the two-pass assembly of a whole program returns: the first pass
/// resolves every label (forward references included), the second encodes
/// each line against the completed table.
pub open spec fn spec_assemble_program(text: Seq<char>) -> Result<Seq<u32>, AsmIssue> {
    match spec_pass1(spec_lines(text), Map::empty(), 0) {
        Err(e) => Err(e),
        Ok(res) => spec_pass2(spec_lines(text), res.0, 0),
    }
}

/// Collect the label table of a program: pass 1 of the two-pass assembly.
pub fn parse_labels(program: &str) -> (r: Result<LabelTable, AssemblerError>)
    ensures
        match spec_pass1(spec_lines(program@), Map::empty(), 0) {
            Ok(res) => r matches Ok(t) && t.wf() && t@ == res.0,
            Err(i) => r matches Err(e) && spec_err_matches(e, i),
        },
{
    let cs = str_chars(program);
    let lines = split_lines(cs.as_slice());
    pass1_core(&lines)
}

/// Assemble a full program of newline-separated instructions, resolving
/// forward label references with a two-pass walk.
pub fn assemble_program(program: &str) -> (r: Result<Vec<u32>, AssemblerError>)
    ensures
        match spec_assemble_program(program@) {
            Ok(ws) => r matches Ok(v) && v@ == ws,
            Err(i) => r matches Err(e) && spec_err_matches(e, i),
        },
{
    let cs = str_chars(program);
    let lines = split_lines(cs.as_slice());
    let mut labels = match pass1_core(&lines) {
        Ok(t) => t,
        Err(e) => {
            return Err(e);
        },
    };
    pass2_core(&lines, &mut labels)
}

/// Assemble a program in one pass: labels resolve only backwards, as when
/// reading a buffer line by line.
pub fn assemble_buf(text: &str) -> (r: Result<Vec<u32>, AssemblerError>)
    ensures
        match spec_pass2(spec_lines(text@), Map::empty(), 0) {
            Ok(ws) => r matches Ok(v) && v@ == ws,
            Err(i) => r matches Err(e) && spec_err_matches(e, i),
        },
{
    let cs = str_chars(text);
    let lines = split_lines(cs.as_slice());
    let mut labels = LabelTable::new();
    pass2_core(&lines, &mut labels)
}

} // verus!
