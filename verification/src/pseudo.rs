//! Pseudo-instruction expansion: a recognized pseudo mnemonic becomes one or
//! more base instructions, given as token lists; anything else passes
//! through unchanged so that the base-instruction encoder reports genuine
//! typos.

use vstd::prelude::*;
use crate::error::{spec_err_matches, AsmIssue, AssemblerError};
use crate::tokenizer::strings_view;
use crate::parse::{
    dec_chars, is1, is2, is3, is4, is5, parse_int_chars, spec_dec_chars, spec_int_token,
};
use crate::text::{chars_to_string, copy_chars, str_chars, vec1, vec2, vec3, vec4, vec5};

verus! {

/// The character sequences behind a list of token vectors.
pub open spec fn token_list_view(l: Seq<Vec<char>>) -> Seq<Seq<char>> {
    l.map_values(|t: Vec<char>| t@)
}

/// The character sequences behind a list of instructions, each a list of
/// token vectors.
pub open spec fn token_lists_view(v: Seq<Vec<Vec<char>>>) -> Seq<Seq<Seq<char>>> {
    v.map_values(|l: Vec<Vec<char>>| token_list_view(l@))
}

/// The expansion of an `li` into an `addi`, or a `lui` optionally followed
/// by an `addi`, with the immediate split into its upper 20 and lower 12
/// bits.
pub open spec fn spec_generate_li(toks: Seq<Seq<char>>) -> Result<Seq<Seq<Seq<char>>>, AsmIssue> {
    if toks.len() < 3 {
        Err(AsmIssue::TooFewTokens)
    } else {
        match spec_int_token(toks[2]) {
            None => Err(AsmIssue::InvalidImmediate(toks[2])),
            Some(v) => if !(i32::MIN <= v <= i32::MAX) {
                Err(AsmIssue::InvalidImmediate(toks[2]))
            } else {
                let u = v as u32;
                if u <= 0xFFF {
                    Ok(
                        seq![
                            seq![
                                seq!['a', 'd', 'd', 'i'],
                                toks[1],
                                seq!['x', '0'],
                                spec_dec_chars(u as int),
                            ],
                        ],
                    )
                } else {
                    let lower = (u & 0xFFF) as u32;
                    let upper = (u >> 12u32) as u32;
                    if lower != 0 {
                        Ok(
                            seq![
                                seq![seq!['l', 'u', 'i'], toks[1], spec_dec_chars(upper as int)],
                                seq![
                                    seq!['a', 'd', 'd', 'i'],
                                    toks[1],
                                    toks[1],
                                    spec_dec_chars(lower as int),
                                ],
                            ],
                        )
                    } else {
                        Ok(seq![seq![seq!['l', 'u', 'i'], toks[1], spec_dec_chars(upper as int)]])
                    }
                }
            },
        }
    }
}

/// The base instructions that a token list stands for: a pseudo-instruction
/// expands, anything else passes through as the one instruction it already
/// is.
pub open spec fn spec_expand(toks: Seq<Seq<char>>) -> Result<Seq<Seq<Seq<char>>>, AsmIssue> {
    if toks.len() == 0 {
        Err(AsmIssue::TooFewTokens)
    } else {
        let op = toks[0];
        if op == seq!['l', 'i'] {
            spec_generate_li(toks)
    } else if op == seq!['n', 'o', 'p'] {
        Ok(seq![seq![seq!['a', 'd', 'd', 'i'], seq!['x', '0'], seq!['x', '0'], seq!['0']]])
    } else if op == seq!['m', 'v'] {
        if toks.len() < 3 {
            Err(AsmIssue::TooFewTokens)
        } else {
            Ok(seq![seq![seq!['a', 'd', 'd'], toks[1], toks[2], seq!['x', '0']]])
        }
    } else if op == seq!['n', 'o', 't'] {
        if toks.len() < 3 {
            Err(AsmIssue::TooFewTokens)
        } else {
            Ok(seq![seq![seq!['x', 'o', 'r', 'i'], toks[1], toks[2], seq!['-', '1']]])
        }
    } else if op == seq!['n', 'e', 'g'] {
        if toks.len() < 3 {
            Err(AsmIssue::TooFewTokens)
        } else {
            Ok(seq![seq![seq!['s', 'u', 'b'], toks[1], seq!['x', '0'], toks[2]]])
        }
    } else if op == seq!['s', 'e', 'q', 'z'] {
        if toks.len() < 3 {
            Err(AsmIssue::TooFewTokens)
        } else {
            Ok(seq![seq![seq!['s', 'l', 't', 'i', 'u'], toks[1], toks[2], seq!['1']]])
        }
    } else if op == seq!['s', 'n', 'e', 'z'] {
        if toks.len() < 3 {
            Err(AsmIssue::TooFewTokens)
        } else {
            Ok(seq![seq![seq!['s', 'l', 't', 'u'], toks[1], seq!['x', '0'], toks[2]]])
        }
    } else if op == seq!['s', 'l', 't', 'z'] {
        if toks.len() < 3 {
            Err(AsmIssue::TooFewTokens)
        } else {
            Ok(seq![seq![seq!['s', 'l', 't'], toks[1], toks[2], seq!['x', '0']]])
        }
    } else if op == seq!['s', 'g', 't', 'z'] {
        if toks.len() < 3 {
            Err(AsmIssue::TooFewTokens)
        } else {
            Ok(seq![seq![seq!['s', 'l', 't'], toks[1], seq!['x', '0'], toks[2]]])
        }
    } else if op == seq!['b', 'e', 'q', 'z'] {
        if toks.len() < 3 {
            Err(AsmIssue::TooFewTokens)
        } else {
            Ok(seq![seq![seq!['b', 'e', 'q'], toks[1], seq!['x', '0'], toks[2]]])
        }
    } else if op == seq!['b', 'n', 'e', 'z'] {
        if toks.len() < 3 {
            Err(AsmIssue::TooFewTokens)
        } else {
            Ok(seq![seq![seq!['b', 'n', 'e'], toks[1], seq!['x', '0'], toks[2]]])
        }
    } else if op == seq!['b', 'l', 'e', 'z'] {
        if toks.len() < 3 {
            Err(AsmIssue::TooFewTokens)
        } else {
            Ok(seq![seq![seq!['b', 'g', 'e'], seq!['x', '0'], toks[1], toks[2]]])
        }
    } else if op == seq!['b', 'g', 'e', 'z'] {
        if toks.len() < 3 {
            Err(AsmIssue::TooFewTokens)
        } else {
            Ok(seq![seq![seq!['b', 'g', 'e'], toks[1], seq!['x', '0'], toks[2]]])
        }
    } else if op == seq!['b', 'l', 't', 'z'] {
        if toks.len() < 3 {
            Err(AsmIssue::TooFewTokens)
        } else {
            Ok(seq![seq![seq!['b', 'l', 't'], toks[1], seq!['x', '0'], toks[2]]])
        }
    } else if op == seq!['b', 'g', 't', 'z'] {
        if toks.len() < 3 {
            Err(AsmIssue::TooFewTokens)
        } else {
            Ok(seq![seq![seq!['b', 'l', 't'], seq!['x', '0'], toks[1], toks[2]]])
        }
    } else if op == seq!['b', 'g', 't'] {
        if toks.len() < 4 {
            Err(AsmIssue::TooFewTokens)
        } else {
            Ok(seq![seq![seq!['b', 'l', 't'], toks[2], toks[1], toks[3]]])
        }
    } else if op == seq!['b', 'l', 'e'] {
        if toks.len() < 4 {
            Err(AsmIssue::TooFewTokens)
        } else {
            Ok(seq![seq![seq!['b', 'g', 'e'], toks[2], toks[1], toks[3]]])
        }
    } else if op == seq!['j'] {
        if toks.len() < 2 {
            Err(AsmIssue::TooFewTokens)
        } else {
            Ok(seq![seq![seq!['j', 'a', 'l'], seq!['x', '0'], toks[1]]])
        }
    } else if op == seq!['t', 'a', 'i', 'l'] {
        if toks.len() < 2 {
            Err(AsmIssue::TooFewTokens)
        } else {
            Ok(seq![seq![seq!['j', 'a', 'l'], seq!['x', '0'], toks[1]]])
        }
    } else if op == seq!['j', 'r'] {
        if toks.len() < 2 {
            Err(AsmIssue::TooFewTokens)
        } else {
            Ok(seq![seq![seq!['j', 'a', 'l', 'r'], seq!['x', '0'], toks[1], seq!['0']]])
        }
    } else if op == seq!['r', 'e', 't'] {
        Ok(seq![seq![seq!['j', 'a', 'l', 'r'], seq!['x', '0'], seq!['r', 'a'], seq!['0']]])
    } else if op == seq!['j', 'a', 'l'] || op == seq!['c', 'a', 'l', 'l'] {
        if toks.len() == 2 {
            Ok(seq![seq![seq!['j', 'a', 'l'], seq!['r', 'a'], toks[1]]])
        } else {
            Ok(seq![toks])
        }
    } else if op == seq!['j', 'a', 'l', 'r'] {
        if toks.len() == 2 {
            Ok(seq![seq![seq!['j', 'a', 'l', 'r'], seq!['r', 'a'], toks[1], seq!['0']]])
        } else {
            Ok(seq![toks])
        }
    } else {
        Ok(seq![toks])
    }
    }
}

fn copy_tokens(toks: &Vec<Vec<char>>) -> (r: Vec<Vec<char>>)
    ensures
        token_list_view(r@) == token_list_view(toks@),
{
    let mut out: Vec<Vec<char>> = Vec::new();
    let mut i: usize = 0;
    while i < toks.len()
        invariant
            i <= toks@.len(),
            out@.len() == i,
            forall|k: int| 0 <= k < i ==> (#[trigger] out@[k])@ == toks@[k]@,
        decreases toks@.len() - i,
    {
        out.push(copy_chars(toks[i].as_slice()));
        i = i + 1;
    }
    proof {
        assert(token_list_view(out@) =~= token_list_view(toks@));
    }
    out
}

/// Expand a pseudo-instruction, or hand the tokens back as one instruction.
pub(crate) fn expand_chars(toks: &Vec<Vec<char>>) -> (r: Result<
    Vec<Vec<Vec<char>>>,
    AssemblerError,
>)
    ensures
        ({
            let tv = token_list_view(toks@);
            match spec_expand(tv) {
                Ok(lists) => r matches Ok(v) && token_lists_view(v@) == lists,
                Err(i) => r matches Err(e) && spec_err_matches(e, i),
            }
        }),
{
    let ghost tv = token_list_view(toks@);
    if toks.len() == 0 {
        return Err(AssemblerError::TooFewTokensError);
    }
    proof {
        assert(tv[0] == toks@[0]@);
    }
    if is2(toks[0].as_slice(), 'l', 'i') {
        generate_li(toks)
    } else if is3(toks[0].as_slice(), 'n', 'o', 'p') {
        let mut out: Vec<Vec<Vec<char>>> = Vec::new();
        let mut ins0: Vec<Vec<char>> = Vec::new();
        ins0.push(vec4('a', 'd', 'd', 'i'));
        ins0.push(vec2('x', '0'));
        ins0.push(vec2('x', '0'));
        ins0.push(vec1('0'));
        out.push(ins0);
        proof {
            assert(token_lists_view(out@) =~~= (spec_expand(tv))->Ok_0);
        }
        return Ok(out);
    } else if is2(toks[0].as_slice(), 'm', 'v') {
        if toks.len() < 3 {
            return Err(AssemblerError::TooFewTokensError);
        }
        let mut out: Vec<Vec<Vec<char>>> = Vec::new();
        let mut ins0: Vec<Vec<char>> = Vec::new();
        ins0.push(vec3('a', 'd', 'd'));
        ins0.push(copy_chars(toks[1].as_slice()));
        ins0.push(copy_chars(toks[2].as_slice()));
        ins0.push(vec2('x', '0'));
        out.push(ins0);
        proof {
            assert(token_lists_view(out@) =~~= (spec_expand(tv))->Ok_0);
        }
        return Ok(out);
    } else if is3(toks[0].as_slice(), 'n', 'o', 't') {
        if toks.len() < 3 {
            return Err(AssemblerError::TooFewTokensError);
        }
        let mut out: Vec<Vec<Vec<char>>> = Vec::new();
        let mut ins0: Vec<Vec<char>> = Vec::new();
        ins0.push(vec4('x', 'o', 'r', 'i'));
        ins0.push(copy_chars(toks[1].as_slice()));
        ins0.push(copy_chars(toks[2].as_slice()));
        ins0.push(vec2('-', '1'));
        out.push(ins0);
        proof {
            assert(token_lists_view(out@) =~~= (spec_expand(tv))->Ok_0);
        }
        return Ok(out);
    } else if is3(toks[0].as_slice(), 'n', 'e', 'g') {
        if toks.len() < 3 {
            return Err(AssemblerError::TooFewTokensError);
        }
        let mut out: Vec<Vec<Vec<char>>> = Vec::new();
        let mut ins0: Vec<Vec<char>> = Vec::new();
        ins0.push(vec3('s', 'u', 'b'));
        ins0.push(copy_chars(toks[1].as_slice()));
        ins0.push(vec2('x', '0'));
        ins0.push(copy_chars(toks[2].as_slice()));
        out.push(ins0);
        proof {
            assert(token_lists_view(out@) =~~= (spec_expand(tv))->Ok_0);
        }
        return Ok(out);
    } else if is4(toks[0].as_slice(), 's', 'e', 'q', 'z') {
        if toks.len() < 3 {
            return Err(AssemblerError::TooFewTokensError);
        }
        let mut out: Vec<Vec<Vec<char>>> = Vec::new();
        let mut ins0: Vec<Vec<char>> = Vec::new();
        ins0.push(vec5('s', 'l', 't', 'i', 'u'));
        ins0.push(copy_chars(toks[1].as_slice()));
        ins0.push(copy_chars(toks[2].as_slice()));
        ins0.push(vec1('1'));
        out.push(ins0);
        proof {
            assert(token_lists_view(out@) =~~= (spec_expand(tv))->Ok_0);
        }
        return Ok(out);
    } else if is4(toks[0].as_slice(), 's', 'n', 'e', 'z') {
        if toks.len() < 3 {
            return Err(AssemblerError::TooFewTokensError);
        }
        let mut out: Vec<Vec<Vec<char>>> = Vec::new();
        let mut ins0: Vec<Vec<char>> = Vec::new();
        ins0.push(vec4('s', 'l', 't', 'u'));
        ins0.push(copy_chars(toks[1].as_slice()));
        ins0.push(vec2('x', '0'));
        ins0.push(copy_chars(toks[2].as_slice()));
        out.push(ins0);
        proof {
            assert(token_lists_view(out@) =~~= (spec_expand(tv))->Ok_0);
        }
        return Ok(out);
    } else if is4(toks[0].as_slice(), 's', 'l', 't', 'z') {
        if toks.len() < 3 {
            return Err(AssemblerError::TooFewTokensError);
        }
        let mut out: Vec<Vec<Vec<char>>> = Vec::new();
        let mut ins0: Vec<Vec<char>> = Vec::new();
        ins0.push(vec3('s', 'l', 't'));
        ins0.push(copy_chars(toks[1].as_slice()));
        ins0.push(copy_chars(toks[2].as_slice()));
        ins0.push(vec2('x', '0'));
        out.push(ins0);
        proof {
            assert(token_lists_view(out@) =~~= (spec_expand(tv))->Ok_0);
        }
        return Ok(out);
    } else if is4(toks[0].as_slice(), 's', 'g', 't', 'z') {
        if toks.len() < 3 {
            return Err(AssemblerError::TooFewTokensError);
        }
        let mut out: Vec<Vec<Vec<char>>> = Vec::new();
        let mut ins0: Vec<Vec<char>> = Vec::new();
        ins0.push(vec3('s', 'l', 't'));
        ins0.push(copy_chars(toks[1].as_slice()));
        ins0.push(vec2('x', '0'));
        ins0.push(copy_chars(toks[2].as_slice()));
        out.push(ins0);
        proof {
            assert(token_lists_view(out@) =~~= (spec_expand(tv))->Ok_0);
        }
        return Ok(out);
    } else if is4(toks[0].as_slice(), 'b', 'e', 'q', 'z') {
        if toks.len() < 3 {
            return Err(AssemblerError::TooFewTokensError);
        }
        let mut out: Vec<Vec<Vec<char>>> = Vec::new();
        let mut ins0: Vec<Vec<char>> = Vec::new();
        ins0.push(vec3('b', 'e', 'q'));
        ins0.push(copy_chars(toks[1].as_slice()));
        ins0.push(vec2('x', '0'));
        ins0.push(copy_chars(toks[2].as_slice()));
        out.push(ins0);
        proof {
            assert(token_lists_view(out@) =~~= (spec_expand(tv))->Ok_0);
        }
        return Ok(out);
    } else if is4(toks[0].as_slice(), 'b', 'n', 'e', 'z') {
        if toks.len() < 3 {
            return Err(AssemblerError::TooFewTokensError);
        }
        let mut out: Vec<Vec<Vec<char>>> = Vec::new();
        let mut ins0: Vec<Vec<char>> = Vec::new();
        ins0.push(vec3('b', 'n', 'e'));
        ins0.push(copy_chars(toks[1].as_slice()));
        ins0.push(vec2('x', '0'));
        ins0.push(copy_chars(toks[2].as_slice()));
        out.push(ins0);
        proof {
            assert(token_lists_view(out@) =~~= (spec_expand(tv))->Ok_0);
        }
        return Ok(out);
    } else if is4(toks[0].as_slice(), 'b', 'l', 'e', 'z') {
        if toks.len() < 3 {
            return Err(AssemblerError::TooFewTokensError);
        }
        let mut out: Vec<Vec<Vec<char>>> = Vec::new();
        let mut ins0: Vec<Vec<char>> = Vec::new();
        ins0.push(vec3('b', 'g', 'e'));
        ins0.push(vec2('x', '0'));
        ins0.push(copy_chars(toks[1].as_slice()));
        ins0.push(copy_chars(toks[2].as_slice()));
        out.push(ins0);
        proof {
            assert(token_lists_view(out@) =~~= (spec_expand(tv))->Ok_0);
        }
        return Ok(out);
    } else if is4(toks[0].as_slice(), 'b', 'g', 'e', 'z') {
        if toks.len() < 3 {
            return Err(AssemblerError::TooFewTokensError);
        }
        let mut out: Vec<Vec<Vec<char>>> = Vec::new();
        let mut ins0: Vec<Vec<char>> = Vec::new();
        ins0.push(vec3('b', 'g', 'e'));
        ins0.push(copy_chars(toks[1].as_slice()));
        ins0.push(vec2('x', '0'));
        ins0.push(copy_chars(toks[2].as_slice()));
        out.push(ins0);
        proof {
            assert(token_lists_view(out@) =~~= (spec_expand(tv))->Ok_0);
        }
        return Ok(out);
    } else if is4(toks[0].as_slice(), 'b', 'l', 't', 'z') {
        if toks.len() < 3 {
            return Err(AssemblerError::TooFewTokensError);
        }
        let mut out: Vec<Vec<Vec<char>>> = Vec::new();
        let mut ins0: Vec<Vec<char>> = Vec::new();
        ins0.push(vec3('b', 'l', 't'));
        ins0.push(copy_chars(toks[1].as_slice()));
        ins0.push(vec2('x', '0'));
        ins0.push(copy_chars(toks[2].as_slice()));
        out.push(ins0);
        proof {
            assert(token_lists_view(out@) =~~= (spec_expand(tv))->Ok_0);
        }
        return Ok(out);
    } else if is4(toks[0].as_slice(), 'b', 'g', 't', 'z') {
        if toks.len() < 3 {
            return Err(AssemblerError::TooFewTokensError);
        }
        let mut out: Vec<Vec<Vec<char>>> = Vec::new();
        let mut ins0: Vec<Vec<char>> = Vec::new();
        ins0.push(vec3('b', 'l', 't'));
        ins0.push(vec2('x', '0'));
        ins0.push(copy_chars(toks[1].as_slice()));
        ins0.push(copy_chars(toks[2].as_slice()));
        out.push(ins0);
        proof {
            assert(token_lists_view(out@) =~~= (spec_expand(tv))->Ok_0);
        }
        return Ok(out);
    } else if is3(toks[0].as_slice(), 'b', 'g', 't') {
        if toks.len() < 4 {
            return Err(AssemblerError::TooFewTokensError);
        }
        let mut out: Vec<Vec<Vec<char>>> = Vec::new();
        let mut ins0: Vec<Vec<char>> = Vec::new();
        ins0.push(vec3('b', 'l', 't'));
        ins0.push(copy_chars(toks[2].as_slice()));
        ins0.push(copy_chars(toks[1].as_slice()));
        ins0.push(copy_chars(toks[3].as_slice()));
        out.push(ins0);
        proof {
            assert(token_lists_view(out@) =~~= (spec_expand(tv))->Ok_0);
        }
        return Ok(out);
    } else if is3(toks[0].as_slice(), 'b', 'l', 'e') {
        if toks.len() < 4 {
            return Err(AssemblerError::TooFewTokensError);
        }
        let mut out: Vec<Vec<Vec<char>>> = Vec::new();
        let mut ins0: Vec<Vec<char>> = Vec::new();
        ins0.push(vec3('b', 'g', 'e'));
        ins0.push(copy_chars(toks[2].as_slice()));
        ins0.push(copy_chars(toks[1].as_slice()));
        ins0.push(copy_chars(toks[3].as_slice()));
        out.push(ins0);
        proof {
            assert(token_lists_view(out@) =~~= (spec_expand(tv))->Ok_0);
        }
        return Ok(out);
    } else if is1(toks[0].as_slice(), 'j') {
        if toks.len() < 2 {
            return Err(AssemblerError::TooFewTokensError);
        }
        let mut out: Vec<Vec<Vec<char>>> = Vec::new();
        let mut ins0: Vec<Vec<char>> = Vec::new();
        ins0.push(vec3('j', 'a', 'l'));
        ins0.push(vec2('x', '0'));
        ins0.push(copy_chars(toks[1].as_slice()));
        out.push(ins0);
        proof {
            assert(token_lists_view(out@) =~~= (spec_expand(tv))->Ok_0);
        }
        return Ok(out);
    } else if is4(toks[0].as_slice(), 't', 'a', 'i', 'l') {
        if toks.len() < 2 {
            return Err(AssemblerError::TooFewTokensError);
        }
        let mut out: Vec<Vec<Vec<char>>> = Vec::new();
        let mut ins0: Vec<Vec<char>> = Vec::new();
        ins0.push(vec3('j', 'a', 'l'));
        ins0.push(vec2('x', '0'));
        ins0.push(copy_chars(toks[1].as_slice()));
        out.push(ins0);
        proof {
            assert(token_lists_view(out@) =~~= (spec_expand(tv))->Ok_0);
        }
        return Ok(out);
    } else if is2(toks[0].as_slice(), 'j', 'r') {
        if toks.len() < 2 {
            return Err(AssemblerError::TooFewTokensError);
        }
        let mut out: Vec<Vec<Vec<char>>> = Vec::new();
        let mut ins0: Vec<Vec<char>> = Vec::new();
        ins0.push(vec4('j', 'a', 'l', 'r'));
        ins0.push(vec2('x', '0'));
        ins0.push(copy_chars(toks[1].as_slice()));
        ins0.push(vec1('0'));
        out.push(ins0);
        proof {
            assert(token_lists_view(out@) =~~= (spec_expand(tv))->Ok_0);
        }
        return Ok(out);
    } else if is3(toks[0].as_slice(), 'r', 'e', 't') {
        let mut out: Vec<Vec<Vec<char>>> = Vec::new();
        let mut ins0: Vec<Vec<char>> = Vec::new();
        ins0.push(vec4('j', 'a', 'l', 'r'));
        ins0.push(vec2('x', '0'));
        ins0.push(vec2('r', 'a'));
        ins0.push(vec1('0'));
        out.push(ins0);
        proof {
            assert(token_lists_view(out@) =~~= (spec_expand(tv))->Ok_0);
        }
        return Ok(out);
    } else if is3(toks[0].as_slice(), 'j', 'a', 'l') || is4(toks[0].as_slice(), 'c', 'a', 'l', 'l') {
        if toks.len() == 2 {
            let mut out: Vec<Vec<Vec<char>>> = Vec::new();
            let mut ins0: Vec<Vec<char>> = Vec::new();
            ins0.push(vec3('j', 'a', 'l'));
            ins0.push(vec2('r', 'a'));
            ins0.push(copy_chars(toks[1].as_slice()));
            out.push(ins0);
            proof {
                assert(token_lists_view(out@) =~~= spec_expand(tv)->Ok_0);
            }
            return Ok(out);
        }
        let mut out: Vec<Vec<Vec<char>>> = Vec::new();
        out.push(copy_tokens(toks));
        proof {
            assert(token_lists_view(out@) =~~= spec_expand(tv)->Ok_0);
        }
        return Ok(out);
    } else if is4(toks[0].as_slice(), 'j', 'a', 'l', 'r') {
        if toks.len() == 2 {
            let mut out: Vec<Vec<Vec<char>>> = Vec::new();
            let mut ins0: Vec<Vec<char>> = Vec::new();
            ins0.push(vec4('j', 'a', 'l', 'r'));
            ins0.push(vec2('r', 'a'));
            ins0.push(copy_chars(toks[1].as_slice()));
            ins0.push(vec1('0'));
            out.push(ins0);
            proof {
                assert(token_lists_view(out@) =~~= spec_expand(tv)->Ok_0);
            }
            return Ok(out);
        }
        let mut out: Vec<Vec<Vec<char>>> = Vec::new();
        out.push(copy_tokens(toks));
        proof {
            assert(token_lists_view(out@) =~~= spec_expand(tv)->Ok_0);
        }
        return Ok(out);
    } else {
        let mut out: Vec<Vec<Vec<char>>> = Vec::new();
        out.push(copy_tokens(toks));
        proof {
            assert(token_lists_view(out@) =~~= spec_expand(tv)->Ok_0);
        }
        return Ok(out);
    }
}

/// Break an `li` into an `lui` and/or an `addi`.
fn generate_li(toks: &Vec<Vec<char>>) -> (r: Result<Vec<Vec<Vec<char>>>, AssemblerError>)
    requires
        toks@.len() >= 1,
    ensures
        ({
            let tv = token_list_view(toks@);
            match spec_generate_li(tv) {
                Ok(lists) => r matches Ok(v) && token_lists_view(v@) == lists,
                Err(i) => r matches Err(e) && spec_err_matches(e, i),
            }
        }),
{
    let ghost tv = token_list_view(toks@);
    if toks.len() < 3 {
        return Err(AssemblerError::TooFewTokensError);
    }
    proof {
        assert(tv[1] == toks@[1]@);
        assert(tv[2] == toks@[2]@);
    }
    let d = match parse_int_chars(toks[2].as_slice()) {
        Some(d) => d,
        None => {
            return Err(
                AssemblerError::InvalidImmediateError(
                    chars_to_string(&copy_chars(toks[2].as_slice())),
                ),
            );
        },
    };
    if d < (i32::MIN as i64) || d > (i32::MAX as i64) {
        return Err(
            AssemblerError::InvalidImmediateError(chars_to_string(&copy_chars(toks[2].as_slice()))),
        );
    }
    let u: u32 = #[verifier::truncate] (d as u32);
    proof {
        let v = spec_int_token(tv[2])->Some_0;
        assert(u == v as u32);
    }
    if u <= 0xFFF {
        let mut out: Vec<Vec<Vec<char>>> = Vec::new();
        let mut ins0: Vec<Vec<char>> = Vec::new();
        ins0.push(vec4('a', 'd', 'd', 'i'));
        ins0.push(copy_chars(toks[1].as_slice()));
        ins0.push(vec2('x', '0'));
        ins0.push(dec_chars(u));
        out.push(ins0);
        proof {
            assert(token_lists_view(out@) =~~= spec_generate_li(tv)->Ok_0);
        }
        Ok(out)
    } else {
        let lower = u & 0xFFF;
        let upper = u >> 12;
        let mut out: Vec<Vec<Vec<char>>> = Vec::new();
        let mut ins0: Vec<Vec<char>> = Vec::new();
        ins0.push(vec3('l', 'u', 'i'));
        ins0.push(copy_chars(toks[1].as_slice()));
        ins0.push(dec_chars(upper));
        out.push(ins0);
        if lower != 0 {
            let mut ins1: Vec<Vec<char>> = Vec::new();
            ins1.push(vec4('a', 'd', 'd', 'i'));
            ins1.push(copy_chars(toks[1].as_slice()));
            ins1.push(copy_chars(toks[1].as_slice()));
            ins1.push(dec_chars(lower));
            out.push(ins1);
        }
        proof {
            assert(token_lists_view(out@) =~~= spec_generate_li(tv)->Ok_0);
        }
        Ok(out)
    }
}


/// Take an instruction as tokens and return one or more vectors of tokens,
/// each a base instruction; tokens that are no pseudo-instruction pass
/// through unchanged.
pub fn transform_psuedo_ir(tokens: &Vec<String>) -> (r: Result<Vec<Vec<String>>, AssemblerError>)
    ensures
        ({
            let tv = strings_view(tokens@);
            match spec_expand(tv) {
                Ok(lists) => r matches Ok(v) && v@.map_values(|l: Vec<String>| strings_view(l@))
                    == lists,
                Err(i) => r matches Err(e) && spec_err_matches(e, i),
            }
        }),
{
    let mut toks: Vec<Vec<char>> = Vec::new();
    let mut i: usize = 0;
    while i < tokens.len()
        invariant
            i <= tokens@.len(),
            toks@.len() == i,
            forall|k: int| 0 <= k < i ==> (#[trigger] toks@[k])@ == tokens@[k]@,
        decreases tokens@.len() - i,
    {
        toks.push(str_chars(tokens[i].as_str()));
        i = i + 1;
    }
    proof {
        assert(token_list_view(toks@) =~= strings_view(tokens@));
    }
    let list = match expand_chars(&toks) {
        Ok(list) => list,
        Err(e) => {
            return Err(e);
        },
    };
    let mut out: Vec<Vec<String>> = Vec::new();
    let mut j: usize = 0;
    while j < list.len()
        invariant
            j <= list@.len(),
            out@.len() == j,
            forall|k: int|
                0 <= k < j ==> strings_view((#[trigger] out@[k])@) == token_list_view(
                    list@[k]@,
                ),
        decreases list@.len() - j,
    {
        let ins = &list[j];
        let mut outs: Vec<String> = Vec::new();
        let mut k: usize = 0;
        while k < ins.len()
            invariant
                k <= ins@.len(),
                outs@.len() == k,
                forall|m: int| 0 <= m < k ==> (#[trigger] outs@[m])@ == ins@[m]@,
            decreases ins@.len() - k,
        {
            outs.push(chars_to_string(&ins[k]));
            k = k + 1;
        }
        proof {
            assert(strings_view(outs@) =~= token_list_view(ins@));
        }
        out.push(outs);
        j = j + 1;
    }
    proof {
        assert(out@.map_values(|l: Vec<String>| strings_view(l@)) =~= token_lists_view(list@));
    }
    Ok(out)
}

} // verus!
