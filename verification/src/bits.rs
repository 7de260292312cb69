//! Bit-level helpers for 32-bit instruction words: slicing a bit range,
//! concatenating sized fields, and replicating a bit for sign extension.

use vstd::prelude::*;

verus! {

/// Value of bits `[hi:lo]` of `w` (inclusive bounds), right-justified.
pub open spec fn spec_bit_slice(w: u32, hi: int, lo: int) -> u32
    recommends
        0 <= lo <= hi < 32,
{
    if lo == 0 && hi == 31 {
        w
    } else {
        ((w >> (lo as u32)) & (((1u32 << (((hi - lo) as u32) + 1)) - 1) as u32)) as u32
    }
}

/// Extract bits `[hi:lo]` (inclusive, `hi >= lo`) of `w`, right-justified.
pub fn bit_slice(w: u32, hi: u32, lo: u32) -> (r: u32)
    requires
        lo <= hi < 32,
    ensures
        r == spec_bit_slice(w, hi as int, lo as int),
{
    if lo == 0 && hi == 31 {
        w
    } else {
        let width: u32 = hi - lo + 1;
        proof {
            assert(1u32 <= (1u32 << width)) by (bit_vector)
                requires
                    width < 32,
            ;
        }
        (w >> lo) & ((1u32 << width) - 1)
    }
}

/// 2^n as a spec-level integer.
pub open spec fn pow2_int(n: int) -> int
    decreases n,
{
    if n <= 0 {
        1
    } else {
        2 * pow2_int(n - 1)
    }
}

proof fn lemma_pow2_pos(n: int)
    ensures
        pow2_int(n) >= 1,
    decreases n,
{
    if n > 0 {
        lemma_pow2_pos(n - 1);
    }
}

proof fn lemma_pow2_monotone(a: int, b: int)
    requires
        a <= b,
    ensures
        pow2_int(a) <= pow2_int(b),
    decreases b,
{
    if a < b && b > 0 {
        lemma_pow2_monotone(a, b - 1);
        lemma_pow2_pos(b - 1);
    }
}

proof fn lemma_pow2_add(a: int, b: int)
    requires
        0 <= a,
        0 <= b,
    ensures
        pow2_int(a + b) == pow2_int(a) * pow2_int(b),
    decreases a,
{
    if a > 0 {
        lemma_pow2_add(a - 1, b);
        assert(2 * (pow2_int(a - 1) * pow2_int(b)) == (2 * pow2_int(a - 1)) * pow2_int(b))
            by (nonlinear_arith);
    }
}

/// 2^n equals `1 << n` for shifts inside a word.
proof fn lemma_pow2_shift(n: u32)
    requires
        n < 32,
    ensures
        pow2_int(n as int) == (1u32 << n),
    decreases n,
{
    if n == 0 {
        assert((1u32 << 0) == 1) by (bit_vector);
    } else {
        let m = (n - 1) as u32;
        lemma_pow2_shift(m);
        lemma_pow2_monotone(m as int, 30);
        reveal_with_fuel(pow2_int, 32);
        assert((1u32 << n) == 2 * (1u32 << m) || (1u32 << m) >= 0x8000_0000) by (bit_vector)
            requires
                n < 32,
                m == n - 1,
        ;
    }
}

/// `x << n` multiplies by 2^n when the product stays below 2^32.
proof fn lemma_shl_is_mul_pow2(x: u32, n: u32)
    requires
        n < 32,
        x * pow2_int(n as int) < 0x1_0000_0000,
    ensures
        (x << n) == x * pow2_int(n as int),
{
    lemma_pow2_shift(n);
    assert((x << n) == x * (1u32 << n)) by (bit_vector)
        requires
            n < 32,
            x * (1u32 << n) < 0x1_0000_0000,
    ;
}

/// Total width, in bits, of a sequence of `(value, width)` fields.
pub open spec fn spec_concat_width(parts: Seq<(u32, u32)>) -> int
    decreases parts.len(),
{
    if parts.len() == 0 {
        0
    } else {
        parts[0].1 + spec_concat_width(parts.skip(1))
    }
}

/// Value of `(value, width)` fields packed big-end-first: the first field
/// occupies the most significant position.
pub open spec fn spec_bit_concat(parts: Seq<(u32, u32)>) -> int
    decreases parts.len(),
{
    if parts.len() == 0 {
        0
    } else {
        parts[0].0 * pow2_int(spec_concat_width(parts.skip(1))) + spec_bit_concat(parts.skip(1))
    }
}

/// Every field fits within its declared width and has at least one bit.
pub open spec fn concat_parts_ok(parts: Seq<(u32, u32)>) -> bool {
    forall|k: int|
        0 <= k < parts.len() ==> (1 <= #[trigger] parts[k].1 && parts[k].0 < pow2_int(
            parts[k].1 as int,
        ))
}

/// Unfolding width and value of a suffix at position `j`.
proof fn lemma_skip_unfold(parts: Seq<(u32, u32)>, j: int)
    requires
        0 <= j < parts.len(),
    ensures
        spec_concat_width(parts.skip(j)) == parts[j].1 + spec_concat_width(parts.skip(j + 1)),
        spec_bit_concat(parts.skip(j)) == parts[j].0 * pow2_int(
            spec_concat_width(parts.skip(j + 1)),
        ) + spec_bit_concat(parts.skip(j + 1)),
{
    assert(parts.skip(j).skip(1) =~= parts.skip(j + 1));
    assert(parts.skip(j)[0] == parts[j]);
}

proof fn lemma_concat_width_nonneg(parts: Seq<(u32, u32)>)
    ensures
        spec_concat_width(parts) >= 0,
    decreases parts.len(),
{
    if parts.len() > 0 {
        lemma_concat_width_nonneg(parts.skip(1));
    }
}

/// The width of a suffix never exceeds the width of the whole sequence.
proof fn lemma_concat_width_suffix(parts: Seq<(u32, u32)>, j: int)
    requires
        0 <= j <= parts.len(),
    ensures
        spec_concat_width(parts.skip(j)) <= spec_concat_width(parts),
    decreases j,
{
    if j == 0 {
        assert(parts.skip(0) =~= parts);
    } else {
        lemma_concat_width_suffix(parts, j - 1);
        lemma_skip_unfold(parts, j - 1);
        lemma_concat_width_nonneg(parts.skip(j));
    }
}

/// A concatenation of fields that each fit their width fits the total width.
proof fn lemma_concat_bounded(parts: Seq<(u32, u32)>)
    requires
        concat_parts_ok(parts),
    ensures
        0 <= spec_bit_concat(parts) < pow2_int(spec_concat_width(parts)),
    decreases parts.len(),
{
    if parts.len() > 0 {
        let tail = parts.skip(1);
        assert forall|k: int| 0 <= k < tail.len() implies (1 <= #[trigger] tail[k].1 && tail[k].0
            < pow2_int(tail[k].1 as int)) by {
            assert(tail[k] == parts[k + 1]);
        }
        lemma_concat_bounded(tail);
        lemma_concat_width_nonneg(tail);
        let v = parts[0].0 as int;
        let w = parts[0].1 as int;
        let tw = spec_concat_width(tail);
        lemma_pow2_add(w, tw);
        lemma_pow2_pos(tw);
        assert(0 <= v * pow2_int(tw) && v * pow2_int(tw) + spec_bit_concat(tail) < pow2_int(w)
            * pow2_int(tw)) by (nonlinear_arith)
            requires
                0 <= v < pow2_int(w),
                0 <= spec_bit_concat(tail) < pow2_int(tw),
                pow2_int(tw) >= 1,
        ;
    }
}

/// Pack the given `(value, width)` fields into one word, the first field at
/// the most significant end. Each value must fit in its width and the
/// widths must fill at most 32 bits.
pub fn bit_concat(parts: &[(u32, u32)]) -> (r: u32)
    requires
        spec_concat_width(parts@) <= 32,
        concat_parts_ok(parts@),
    ensures
        r == spec_bit_concat(parts@),
{
    let mut t: u32 = 0;
    let mut shift: u32 = 0;
    let mut j: usize = parts.len();
    proof {
        assert(parts@.skip(j as int) =~= Seq::<(u32, u32)>::empty());
    }
    while j > 0
        invariant
            j <= parts@.len(),
            spec_concat_width(parts@) <= 32,
            concat_parts_ok(parts@),
            shift == spec_concat_width(parts@.skip(j as int)),
            t == spec_bit_concat(parts@.skip(j as int)),
        decreases j,
    {
        j = j - 1;
        let (v, w) = parts[j];
        proof {
            lemma_skip_unfold(parts@, j as int);
            let tail = parts@.skip(j as int + 1);
            assert forall|k: int| 0 <= k < tail.len() implies (1 <= #[trigger] tail[k].1
                && tail[k].0 < pow2_int(tail[k].1 as int)) by {
                assert(tail[k] == parts@[k + j as int + 1]);
            }
            lemma_concat_bounded(tail);
            lemma_concat_width_nonneg(tail);
            lemma_concat_width_suffix(parts@, j as int);
            let rest = spec_bit_concat(tail);
            lemma_pow2_add(w as int, shift as int);
            lemma_pow2_pos(shift as int);
            assert(0 <= v * pow2_int(shift as int) && v * pow2_int(shift as int) + rest
                < pow2_int(w as int) * pow2_int(shift as int)) by (nonlinear_arith)
                requires
                    0 <= (v as int) < pow2_int(w as int),
                    0 <= rest < pow2_int(shift as int),
                    pow2_int(shift as int) >= 1,
            ;
            lemma_pow2_monotone(spec_concat_width(parts@.skip(j as int)), 32);
            reveal_with_fuel(pow2_int, 33);
            lemma_shl_is_mul_pow2(v, shift);
        }
        t = t + (v << shift);
        shift = shift + w;
    }
    proof {
        assert(parts@.skip(0) =~= parts@);
    }
    t
}

/// `n` copies of `bit` (0 for a zero bit, anything else for a one bit) in
/// the low `n` bits; used for sign extension.
pub fn bit_extend(bit: u32, n: u32) -> (r: u32)
    requires
        n <= 32,
    ensures
        r == spec_bit_extend(bit, n as int),
{
    if bit == 0 {
        0
    } else if n == 32 {
        proof {
            reveal_with_fuel(pow2_int, 33);
        }
        0xFFFF_FFFF
    } else {
        proof {
            lemma_pow2_shift(n);
            lemma_pow2_pos(n as int);
        }
        (1u32 << n) - 1
    }
}

/// The low `n` bits all set to `bit`.
pub open spec fn spec_bit_extend(bit: u32, n: int) -> u32
    recommends
        0 <= n <= 32,
{
    if bit == 0 {
        0u32
    } else {
        (pow2_int(n) - 1) as u32
    }
}

} // verus!
