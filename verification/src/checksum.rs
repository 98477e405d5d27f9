use vstd::prelude::*;
use vstd::arithmetic::div_mod::{lemma_fundamental_div_mod, lemma_mod_multiples_vanish};

verus! {

/// The one's-complement fold of a non-negative sum into sixteen bits: the
/// result of adding the carries back in until nothing is carried out. Zero
/// stays zero; any positive sum lands in `1..=0xffff`, congruent to it
/// modulo `0xffff`.
pub open spec fn ones_fold(x: int) -> int {
    if x <= 0 {
        0
    } else {
        (x - 1) % 65535 + 1
    }
}

/// RFC 1624 incremental update of a 16-bit one's-complement checksum `check`
/// for one field changing from `old` to `new`: `HC' = ~(~HC + ~m + m')`.
pub open spec fn csum_update(check: u16, old: u16, new: u16) -> u16 {
    (65535 - ones_fold((65535 - check) + (65535 - old) + new)) as u16
}

/// The plain sum of a sequence of 16-bit words.
pub open spec fn word_sum(words: Seq<u16>) -> int
    decreases words.len(),
{
    if words.len() == 0 {
        0
    } else {
        word_sum(words.drop_last()) + words.last()
    }
}

/// The Internet checksum of a sequence of 16-bit words: the complement of
/// their one's-complement sum.
pub open spec fn internet_checksum(words: Seq<u16>) -> u16 {
    (65535 - ones_fold(word_sum(words))) as u16
}

proof fn lemma_fold_range(x: int)
    requires
        x >= 1,
    ensures
        1 <= ones_fold(x) <= 65535,
        x == ones_fold(x) + 65535 * ((x - 1) / 65535),
        (x - 1) / 65535 >= 0,
{
    lemma_fundamental_div_mod(x - 1, 65535);
    assert((x - 1) / 65535 >= 0) by (nonlinear_arith)
        requires
            x - 1 >= 0,
    ;
}

proof fn lemma_fold_small(x: int)
    requires
        1 <= x <= 65535,
    ensures
        ones_fold(x) == x,
{
    lemma_fold_range(x);
    let q = (x - 1) / 65535;
    assert(q == 0) by (nonlinear_arith)
        requires
            x == ones_fold(x) + 65535 * q,
            1 <= ones_fold(x),
            x <= 65535,
            q >= 0,
    ;
}

/// Adding a multiple of `0xffff` to a positive sum does not change its fold.
proof fn lemma_fold_shift(x: int, k: int)
    requires
        x >= 1,
        x + 65535 * k >= 1,
    ensures
        ones_fold(x + 65535 * k) == ones_fold(x),
{
    lemma_mod_multiples_vanish(k, x - 1, 65535);
    assert(x + 65535 * k - 1 == 65535 * k + (x - 1));
}

/// RFC 1624 incremental checksum update for a single changed 16-bit word:
/// `HC' = ~(~HC + ~m + m')`. Used so a port rewrite doesn't require
/// recomputing the whole TCP checksum.
pub fn csum_replace2(check: u16, old: u16, new: u16) -> (updated: u16)
    ensures
        updated == csum_update(check, old, new),
{
    assert(!check == 65535 - check) by (bit_vector);
    assert(!old == 65535 - old) by (bit_vector);
    let not_old: u16 = !old;
    assert((not_old as u32) & 0xffff == not_old as u32) by (bit_vector);
    let mut sum: u32 = (!check as u32) + (!old as u32 & 0xffff) + new as u32;
    let ghost start: int = sum as int;
    assert(start == (65535 - check) + (65535 - old) + new);
    while (sum >> 16) != 0
        invariant
            sum <= start,
            start <= 3 * 65535,
            start >= 1 ==> sum >= 1,
            start == 0 ==> sum == 0,
            ones_fold(sum as int) == ones_fold(start),
        decreases sum,
    {
        let s = sum;
        assert(s >> 16 == s / 65536) by (bit_vector);
        assert(s & 0xffff == s % 65536) by (bit_vector);
        let q: u32 = s >> 16;
        let r: u32 = s & 0xffff;
        proof {
            lemma_fundamental_div_mod(s as int, 65536);
            assert(s == 65536 * q + r);
            assert(q >= 1);
            lemma_fold_shift((q + r) as int, q as int);
            assert((q + r) as int + 65535 * q == s as int);
        }
        sum = r + q;
    }
    let folded = sum;
    assert(folded >> 16 == 0 ==> folded <= 65535) by (bit_vector);
    proof {
        if folded >= 1 {
            lemma_fold_small(folded as int);
        }
    }
    assert(folded as int == ones_fold(start));
    let low: u16 = folded as u16;
    assert(!low == 65535 - low) by (bit_vector);
    !low
}

/// Undoing a field change restores the checksum: updating `check` for a
/// field moving `a -> b`, then for the same field moving back `b -> a`,
/// yields `check` again. The one value this fails on is `0xffff`, the
/// second encoding of one's-complement zero, which comes back as `0`.
pub proof fn lemma_csum_update_round_trip(check: u16, a: u16, b: u16)
    requires
        check != 0xffff,
    ensures
        csum_update(csum_update(check, a, b), b, a) == check,
{
    let t: int = 65535 - check;
    let s1: int = t + (65535 - a) + b;
    lemma_fold_range(s1);
    let f1 = ones_fold(s1);
    let k1 = (s1 - 1) / 65535;
    let c1 = csum_update(check, a, b);
    assert(c1 as int == 65535 - f1);
    let s2: int = (65535 - c1) + (65535 - b) + a;
    assert(s2 == t + 65535 * (2 - k1)) by (nonlinear_arith)
        requires
            s2 == f1 + (65535 - b) + a,
            s1 == f1 + 65535 * k1,
            s1 == t + (65535 - a) + b,
    ;
    lemma_fold_shift(t, 2 - k1);
    lemma_fold_small(t);
}

proof fn lemma_word_sum_update(words: Seq<u16>, i: int, v: u16)
    requires
        0 <= i < words.len(),
    ensures
        word_sum(words.update(i, v)) == word_sum(words) - words[i] + v,
    decreases words.len(),
{
    let u = words.update(i, v);
    if i == words.len() - 1 {
        assert(u.drop_last() =~= words.drop_last());
    } else {
        lemma_word_sum_update(words.drop_last(), i, v);
        assert(u.drop_last() =~= words.drop_last().update(i, v));
    }
}

/// The incremental update agrees with recomputing the checksum from scratch:
/// for any words whose checksum is `internet_checksum(words)`, replacing word
/// `i` and applying [`csum_replace2`]'s update gives the checksum of the new
/// words. It holds whenever the new words do not all sum to zero (the one
/// case where the two encodings of zero part ways).
pub proof fn lemma_csum_update_matches_recompute(words: Seq<u16>, i: int, new: u16)
    requires
        0 <= i < words.len(),
        word_sum(words.update(i, new)) >= 1,
    ensures
        csum_update(internet_checksum(words), words[i], new) == internet_checksum(
            words.update(i, new),
        ),
{
    lemma_word_sum_update(words, i, new);
    let s = word_sum(words);
    let s_new = word_sum(words.update(i, new));
    let m = words[i];
    assert(s >= 0) by {
        lemma_word_sum_nonneg(words);
    }
    let c = internet_checksum(words);
    if s >= 1 {
        lemma_fold_range(s);
        let k = (s - 1) / 65535;
        let x: int = (65535 - c) + (65535 - m) + new;
        assert(c as int == 65535 - ones_fold(s));
        assert(x == s_new + 65535 * (1 - k)) by (nonlinear_arith)
            requires
                x == ones_fold(s) + (65535 - m) + new,
                s == ones_fold(s) + 65535 * k,
                s_new == s - m + new,
        ;
        lemma_fold_shift(s_new, 1 - k);
    } else {
        assert(c == 65535);
        lemma_fold_shift(s_new, 1);
    }
}

proof fn lemma_word_sum_nonneg(words: Seq<u16>)
    ensures
        word_sum(words) >= 0,
    decreases words.len(),
{
    if words.len() > 0 {
        lemma_word_sum_nonneg(words.drop_last());
    }
}

} // verus!
