//! Lexing of one assembly line: the line is ASCII lower-cased, commas,
//! newlines and parentheses count as whitespace, and the line splits into
//! maximal runs of the remaining characters.

use vstd::prelude::*;
use crate::text::{chars_to_string, lower_char, spec_lower_char, str_chars};

verus! {

/// Whether `c` separates tokens once lower-cased: a comma, parenthesis, or
/// ASCII whitespace.
pub open spec fn spec_is_sep(c: char) -> bool {
    c == ',' || c == '(' || c == ')' || c == ' ' || c == '\t' || c == '\n' || c == '\r' || c
        == '\u{b}' || c == '\u{c}'
}

fn is_sep(c: char) -> (r: bool)
    ensures
        r == spec_is_sep(c),
{
    c == ',' || c == '(' || c == ')' || c == ' ' || c == '\t' || c == '\n' || c == '\r' || c
        == '\u{b}' || c == '\u{c}'
}

/// The tokens of the suffix `s`, given a partial current token `cur` and the
/// tokens `acc` already completed.
pub open spec fn spec_tokenize_rec(s: Seq<char>, cur: Seq<char>, acc: Seq<Seq<char>>) -> Seq<
    Seq<char>,
>
    decreases s.len(),
{
    if s.len() == 0 {
        if cur.len() > 0 {
            acc.push(cur)
        } else {
            acc
        }
    } else {
        let c = spec_lower_char(s[0]);
        if spec_is_sep(c) {
            spec_tokenize_rec(
                s.skip(1),
                Seq::empty(),
                if cur.len() > 0 {
                    acc.push(cur)
                } else {
                    acc
                },
            )
        } else {
            spec_tokenize_rec(s.skip(1), cur.push(c), acc)
        }
    }
}

/// The token sequence of a line: lower-cased maximal runs of non-separator
/// characters, in order.
pub open spec fn spec_tokenize(s: Seq<char>) -> Seq<Seq<char>> {
    spec_tokenize_rec(s, Seq::empty(), Seq::empty())
}

/// The character sequences behind a sequence of strings.
pub open spec fn strings_view(ts: Seq<String>) -> Seq<Seq<char>> {
    ts.map_values(|t: String| t@)
}

/// Tokenize a line, given as characters, into character vectors.
pub(crate) fn tokenize_core(cs: &[char]) -> (r: Vec<Vec<char>>)
    ensures
        r@.map_values(|t: Vec<char>| t@) == spec_tokenize(cs@),
        forall|k: int| 0 <= k < r@.len() ==> (#[trigger] r@[k])@.len() > 0,
{
    let ghost s = cs@;
    let mut acc: Vec<Vec<char>> = Vec::new();
    let mut cur: Vec<char> = Vec::new();
    let mut i: usize = 0;
    proof {
        assert(cs@.skip(0) =~= cs@);
        assert(acc@.map_values(|t: Vec<char>| t@) =~= Seq::<Seq<char>>::empty());
        assert(cur@ =~= Seq::<char>::empty());
    }
    while i < cs.len()
        invariant
            i <= cs@.len(),
            cs@ == s,
            spec_tokenize_rec(cs@.skip(i as int), cur@, acc@.map_values(|t: Vec<char>| t@))
                == spec_tokenize(s),
            forall|k: int| 0 <= k < acc@.len() ==> (#[trigger] acc@[k])@.len() > 0,
        decreases cs@.len() - i,
    {
        let c = lower_char(cs[i]);
        proof {
            assert(cs@.skip(i as int)[0] == cs@[i as int]);
            assert(cs@.skip(i as int).skip(1) =~= cs@.skip(i as int + 1));
            assert(cs@.skip(i as int).len() == cs@.len() - i);
            reveal_with_fuel(spec_tokenize_rec, 2);
        }
        if is_sep(c) {
            if cur.len() > 0 {
                let ghost prev = acc@.map_values(|t: Vec<char>| t@);
                let done = cur;
                cur = Vec::new();
                acc.push(done);
                proof {
                    assert(acc@.map_values(|t: Vec<char>| t@) =~= prev.push(done@));
                    assert(cur@ =~= Seq::<char>::empty());
                }
            } else {
                proof {
                    assert(cur@ =~= Seq::<char>::empty());
                }
            }
        } else {
            cur.push(c);
        }
        i = i + 1;
    }
    proof {
        assert(cs@.skip(i as int) =~= Seq::<char>::empty());
    }
    if cur.len() > 0 {
        acc.push(cur);
    }
    acc
}

/// Convert an instruction line to its tokens, stripping out whitespace,
/// parentheses, and commas, and lower-casing the rest.
pub fn tokenize(s: &str) -> (r: Vec<String>)
    ensures
        strings_view(r@) == spec_tokenize(s@),
{
    let cs = str_chars(s);
    let toks = tokenize_core(cs.as_slice());
    let mut out: Vec<String> = Vec::new();
    let mut i: usize = 0;
    while i < toks.len()
        invariant
            i <= toks@.len(),
            out@.len() == i,
            forall|k: int| 0 <= k < i ==> (#[trigger] out@[k])@ == toks@[k]@,
        decreases toks@.len() - i,
    {
        out.push(chars_to_string(&toks[i]));
        i = i + 1;
    }
    proof {
        assert(strings_view(out@) =~= toks@.map_values(|t: Vec<char>| t@));
    }
    out
}

/// The one-character canonical form that tokenization depends on: separators
/// (after lower-casing) all collapse to a space, other characters to their
/// lower case.
pub open spec fn spec_canon_char(c: char) -> char {
    if spec_is_sep(spec_lower_char(c)) {
        ' '
    } else {
        spec_lower_char(c)
    }
}

proof fn lemma_tokenize_rec_canon(s1: Seq<char>, s2: Seq<char>, cur: Seq<char>, acc: Seq<Seq<char>>)
    requires
        s1.map_values(|c: char| spec_canon_char(c)) == s2.map_values(
            |c: char| spec_canon_char(c),
        ),
    ensures
        spec_tokenize_rec(s1, cur, acc) == spec_tokenize_rec(s2, cur, acc),
    decreases s1.len(),
{
    assert(s1.map_values(|c: char| spec_canon_char(c)).len() == s1.len());
    assert(s2.map_values(|c: char| spec_canon_char(c)).len() == s2.len());
    assert(s1.len() == s2.len());
    if s1.len() > 0 {
        let c1 = spec_canon_char(s1[0]);
        let c2 = spec_canon_char(s2[0]);
        assert(c1 == s1.map_values(|c: char| spec_canon_char(c))[0]);
        assert(c2 == s2.map_values(|c: char| spec_canon_char(c))[0]);
        assert(s1.skip(1).map_values(|c: char| spec_canon_char(c)) =~= s1.map_values(
            |c: char| spec_canon_char(c),
        ).skip(1));
        assert(s2.skip(1).map_values(|c: char| spec_canon_char(c)) =~= s2.map_values(
            |c: char| spec_canon_char(c),
        ).skip(1));
        lemma_tokenize_rec_canon(s1.skip(1), s2.skip(1), Seq::empty(), acc);
        lemma_tokenize_rec_canon(
            s1.skip(1),
            s2.skip(1),
            Seq::empty(),
            if cur.len() > 0 {
                acc.push(cur)
            } else {
                acc
            },
        );
        lemma_tokenize_rec_canon(s1.skip(1), s2.skip(1), cur.push(spec_lower_char(s1[0])), acc);
    }
}

/// Tokenization stability: two lines that agree after collapsing commas and
/// parentheses to whitespace and lower-casing produce the same tokens.
pub proof fn lemma_tokenize_stable(s1: Seq<char>, s2: Seq<char>)
    requires
        s1.map_values(|c: char| spec_canon_char(c)) == s2.map_values(
            |c: char| spec_canon_char(c),
        ),
    ensures
        spec_tokenize(s1) == spec_tokenize(s2),
{
    lemma_tokenize_rec_canon(s1, s2, Seq::empty(), Seq::empty());
}

} // verus!
