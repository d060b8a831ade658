use vstd::prelude::*;

verus! {

// A sample is handled as the raw bit pattern of an IEEE-754 binary64
// value (what `f64::to_bits` returns): sign bit, 11 exponent bits, 52
// fraction bits.  On these encodings, finiteness is an exponent test,
// and the numeric order of finite values is the sign-magnitude order of
// the encodings (with the two zero encodings equal), so both can be
// computed and reasoned about without floating-point arithmetic.

/// The sign bit of an encoded sample.
pub open spec fn spec_sign(w: u64) -> bool {
    w & 0x8000_0000_0000_0000 != 0
}

/// The encoding with the sign bit cleared; orders values of equal sign.
pub open spec fn spec_magnitude(w: u64) -> u64 {
    w & 0x7fff_ffff_ffff_ffff
}

/// The biased exponent field.
pub open spec fn spec_exponent(w: u64) -> u64 {
    (w >> 52) & 0x7ff
}

/// An encoding is finite (neither NaN nor an infinity) exactly when its
/// exponent field is not all ones.
pub open spec fn spec_finite(w: u64) -> bool {
    spec_exponent(w) != 0x7ff
}

/// Both zero encodings (+0.0 and -0.0) denote the same value.
pub open spec fn spec_zero(w: u64) -> bool {
    spec_magnitude(w) == 0
}

/// Strict numeric order of two finite encodings: negatives below zero
/// below positives; among negatives the larger magnitude is smaller;
/// among positives the larger magnitude is larger; the two zero
/// encodings are equal.
pub open spec fn spec_lt(a: u64, b: u64) -> bool {
    if spec_zero(a) {
        !spec_zero(b) && !spec_sign(b)
    } else if spec_sign(a) {
        spec_zero(b) || !spec_sign(b) || spec_magnitude(b) < spec_magnitude(a)
    } else {
        !spec_zero(b) && !spec_sign(b) && spec_magnitude(a) < spec_magnitude(b)
    }
}

/// Every encoding of a sequence is finite.
pub open spec fn all_finite(s: Seq<u64>) -> bool {
    forall|i: int| 0 <= i < s.len() ==> spec_finite(#[trigger] s[i])
}

/// The number of leading encodings that are finite: the whole length if
/// every encoding is finite, otherwise the index of the first one that
/// is not.
pub open spec fn finite_prefix_len(s: Seq<u64>) -> nat
    decreases s.len(),
{
    if s.len() == 0 || !spec_finite(s[0]) {
        0
    } else {
        1 + finite_prefix_len(s.subrange(1, s.len() as int))
    }
}

/// The minimum of a non-empty sequence of encodings, folded left to
/// right, keeping the earliest among equal values — exactly the value a
/// running minimum holds after seeing the sequence in order.
pub open spec fn min_word(s: Seq<u64>) -> u64
    recommends
        s.len() > 0,
    decreases s.len(),
{
    if s.len() <= 1 {
        s[0]
    } else {
        let m = min_word(s.drop_last());
        if spec_lt(s.last(), m) {
            s.last()
        } else {
            m
        }
    }
}

/// The maximum of a non-empty sequence of encodings, folded left to
/// right, keeping the earliest among equal values.
pub open spec fn max_word(s: Seq<u64>) -> u64
    recommends
        s.len() > 0,
    decreases s.len(),
{
    if s.len() <= 1 {
        s[0]
    } else {
        let m = max_word(s.drop_last());
        if spec_lt(m, s.last()) {
            s.last()
        } else {
            m
        }
    }
}

/// No encoding is strictly below itself.
pub proof fn lemma_lt_irreflexive(a: u64)
    ensures
        !spec_lt(a, a),
{
}

/// The strict order is transitive.
pub proof fn lemma_lt_transitive(a: u64, b: u64, c: u64)
    requires
        spec_lt(a, b),
        spec_lt(b, c),
    ensures
        spec_lt(a, c),
{
}

/// "Not below" is transitive as well: the order is a strict weak order.
pub proof fn lemma_not_lt_transitive(a: u64, b: u64, c: u64)
    requires
        !spec_lt(a, b),
        !spec_lt(b, c),
    ensures
        !spec_lt(a, c),
{
}

/// The running minimum is one of the samples, and no sample is below it.
pub proof fn lemma_min_word_is_lower_bound(s: Seq<u64>)
    requires
        s.len() > 0,
    ensures
        s.contains(min_word(s)),
        forall|i: int| 0 <= i < s.len() ==> !spec_lt(#[trigger] s[i], min_word(s)),
    decreases s.len(),
{
    if s.len() > 1 {
        lemma_min_word_is_lower_bound(s.drop_last());
        let m = min_word(s.drop_last());
        assert forall|i: int| 0 <= i < s.len() implies !spec_lt(#[trigger] s[i], min_word(s)) by {
            if i < s.len() - 1 {
                assert(s.drop_last()[i] == s[i]);
                if spec_lt(s.last(), m) && spec_lt(s[i], s.last()) {
                    lemma_lt_transitive(s[i], s.last(), m);
                }
            }
        }
        if spec_lt(s.last(), m) {
            assert(s[s.len() - 1] == min_word(s));
        } else {
            let j = choose|j: int|
                0 <= j < s.drop_last().len() && s.drop_last()[j] == min_word(s);
            assert(s[j] == min_word(s));
        }
    }
}

/// The running maximum is one of the samples, and no sample is above it.
pub proof fn lemma_max_word_is_upper_bound(s: Seq<u64>)
    requires
        s.len() > 0,
    ensures
        s.contains(max_word(s)),
        forall|i: int| 0 <= i < s.len() ==> !spec_lt(max_word(s), #[trigger] s[i]),
    decreases s.len(),
{
    if s.len() > 1 {
        lemma_max_word_is_upper_bound(s.drop_last());
        let m = max_word(s.drop_last());
        assert forall|i: int| 0 <= i < s.len() implies !spec_lt(max_word(s), #[trigger] s[i]) by {
            if i < s.len() - 1 {
                assert(s.drop_last()[i] == s[i]);
                if spec_lt(m, s.last()) && spec_lt(s.last(), s[i]) {
                    lemma_lt_transitive(m, s.last(), s[i]);
                }
            }
        }
        if spec_lt(m, s.last()) {
            assert(s[s.len() - 1] == max_word(s));
        } else {
            let j = choose|j: int|
                0 <= j < s.drop_last().len() && s.drop_last()[j] == max_word(s);
            assert(s[j] == max_word(s));
        }
    }
}

/// One more sample moves the running minimum exactly when it is strictly
/// below the old minimum.
pub proof fn lemma_min_word_push(s: Seq<u64>, w: u64)
    requires
        s.len() > 0,
    ensures
        min_word(s.push(w)) == if spec_lt(w, min_word(s)) {
            w
        } else {
            min_word(s)
        },
{
    assert(s.push(w).drop_last() =~= s);
    assert(s.push(w).last() == w);
}

/// One more sample moves the running maximum exactly when it is strictly
/// above the old maximum.
pub proof fn lemma_max_word_push(s: Seq<u64>, w: u64)
    requires
        s.len() > 0,
    ensures
        max_word(s.push(w)) == if spec_lt(max_word(s), w) {
            w
        } else {
            max_word(s)
        },
{
    assert(s.push(w).drop_last() =~= s);
    assert(s.push(w).last() == w);
}

/// Feeding samples in two chunks yields the same minimum as feeding the
/// concatenation at once: the second chunk lowers the minimum exactly
/// when its own minimum is strictly below the first chunk's.
pub proof fn lemma_min_word_concat(s: Seq<u64>, t: Seq<u64>)
    requires
        s.len() > 0,
    ensures
        min_word(s + t) == if t.len() > 0 && spec_lt(min_word(t), min_word(s)) {
            min_word(t)
        } else {
            min_word(s)
        },
    decreases t.len(),
{
    if t.len() == 0 {
        assert(s + t =~= s);
    } else {
        let t0 = t.drop_last();
        let x = t.last();
        lemma_min_word_concat(s, t0);
        assert(s + t =~= (s + t0).push(x));
        lemma_min_word_push(s + t0, x);
        if t0.len() > 0 {
            lemma_min_word_push(t0, x);
            assert(t0.push(x) =~= t);
            let ms = min_word(s);
            let mt0 = min_word(t0);
            if spec_lt(mt0, ms) {
                if spec_lt(x, mt0) {
                    lemma_lt_transitive(x, mt0, ms);
                }
            } else {
                if spec_lt(x, ms) && !spec_lt(x, mt0) {
                    lemma_not_lt_transitive(x, mt0, ms);
                }
            }
        } else {
            assert(t =~= seq![x]);
        }
    }
}

/// Feeding samples in two chunks yields the same maximum as feeding the
/// concatenation at once.
pub proof fn lemma_max_word_concat(s: Seq<u64>, t: Seq<u64>)
    requires
        s.len() > 0,
    ensures
        max_word(s + t) == if t.len() > 0 && spec_lt(max_word(s), max_word(t)) {
            max_word(t)
        } else {
            max_word(s)
        },
    decreases t.len(),
{
    if t.len() == 0 {
        assert(s + t =~= s);
    } else {
        let t0 = t.drop_last();
        let x = t.last();
        lemma_max_word_concat(s, t0);
        assert(s + t =~= (s + t0).push(x));
        lemma_max_word_push(s + t0, x);
        if t0.len() > 0 {
            lemma_max_word_push(t0, x);
            assert(t0.push(x) =~= t);
            let ms = max_word(s);
            let mt0 = max_word(t0);
            if spec_lt(ms, mt0) {
                if spec_lt(mt0, x) {
                    lemma_lt_transitive(ms, mt0, x);
                }
            } else {
                if spec_lt(ms, x) && !spec_lt(mt0, x) {
                    lemma_not_lt_transitive(x, mt0, ms);
                }
            }
        } else {
            assert(t =~= seq![x]);
        }
    }
}

/// Any two correct answers for the minimum of the same samples are
/// order-equivalent: a value that is a sample and has no sample below
/// it is pinned down up to the order, so every engine that meets that
/// contract agrees on the minimum (and, symmetrically, the maximum).
pub proof fn lemma_extrema_unique(s: Seq<u64>, a: u64, b: u64)
    requires
        s.contains(a),
        s.contains(b),
        forall|i: int| 0 <= i < s.len() ==> !spec_lt(#[trigger] s[i], a),
        forall|i: int| 0 <= i < s.len() ==> !spec_lt(#[trigger] s[i], b),
    ensures
        !spec_lt(a, b),
        !spec_lt(b, a),
{
    let i = choose|i: int| 0 <= i < s.len() && s[i] == a;
    let j = choose|j: int| 0 <= j < s.len() && s[j] == b;
    assert(!spec_lt(s[i], b));
    assert(!spec_lt(s[j], a));
}

/// Batch validation and incremental loading accept exactly the same
/// sequences: the data passes `validate` when and only when a bulk
/// update runs through it without stopping.
pub proof fn lemma_validate_matches_acceptance(s: Seq<u64>)
    ensures
        all_finite(s) <==> finite_prefix_len(s) == s.len(),
{
    lemma_finite_prefix_len(s);
    if all_finite(s) && finite_prefix_len(s) < s.len() {
        assert(spec_finite(s[finite_prefix_len(s) as int]));
    }
}

/// A sequence whose finite prefix is the whole length is finite
/// throughout; otherwise the prefix ends on its first non-finite
/// encoding.
pub proof fn lemma_finite_prefix_len(s: Seq<u64>)
    ensures
        finite_prefix_len(s) <= s.len(),
        forall|i: int| 0 <= i < finite_prefix_len(s) ==> spec_finite(#[trigger] s[i]),
        finite_prefix_len(s) < s.len() ==> !spec_finite(s[finite_prefix_len(s) as int]),
    decreases s.len(),
{
    if s.len() > 0 && spec_finite(s[0]) {
        let sub = s.subrange(1, s.len() as int);
        lemma_finite_prefix_len(sub);
        let k = finite_prefix_len(s) as int;
        assert(k == 1 + finite_prefix_len(sub));
        assert forall|i: int| 0 <= i < k implies spec_finite(#[trigger] s[i]) by {
            if i > 0 {
                assert(sub[i - 1] == s[i]);
            }
        }
        if k < s.len() {
            assert(sub[k - 1] == s[k]);
        }
    }
}

/// Whether an encoding is finite: the exponent field is not all ones.
/// Agrees with `f64::is_finite` of the encoded value.
pub fn is_finite(w: u64) -> (r: bool)
    ensures
        r == spec_finite(w),
{
    (w >> 52) & 0x7ff != 0x7ff
}

/// Strict numeric order of two finite encodings.  Agrees with `<` on the
/// encoded values whenever both are finite.
pub fn lt(a: u64, b: u64) -> (r: bool)
    ensures
        r == spec_lt(a, b),
{
    let mag_a = a & 0x7fff_ffff_ffff_ffff;
    let mag_b = b & 0x7fff_ffff_ffff_ffff;
    let neg_a = a & 0x8000_0000_0000_0000 != 0;
    let neg_b = b & 0x8000_0000_0000_0000 != 0;
    if mag_a == 0 {
        mag_b != 0 && !neg_b
    } else if neg_a {
        mag_b == 0 || !neg_b || mag_b < mag_a
    } else {
        mag_b != 0 && !neg_b && mag_a < mag_b
    }
}

} // verus!
