use vstd::prelude::*;

verus! {

// Exact-arithmetic model of the accumulated central moments.
//
// The engines keep `m2`, `m3` and `m4` — the running sums of centered
// second, third and fourth powers — in floating point; this module
// states what those quantities are in exact arithmetic and proves the
// identities the design rests on.  To avoid fractions, samples are
// taken as unbounded integers and each moment is scaled by a power of
// the count that clears the mean's denominator: for a sequence `s` of
// length `n`, `spread(s) = n * sum_sq(s) - sum_of(s)^2` is `n * m2`,
// `spread3(s)` is `n^2 * m3`, and `spread4(s)` is `n^3 * m4`, all
// computed exactly.  Every identity below is a polynomial identity, so
// it holds equally for the scaled rationals that finite binary64
// values denote; the floating-point engines approximate these exact
// quantities.

/// The sum of the samples.
pub open spec fn sum_of(s: Seq<int>) -> int
    decreases s.len(),
{
    if s.len() == 0 {
        0
    } else {
        sum_of(s.drop_last()) + s.last()
    }
}

/// The sum of the squared samples.
pub open spec fn sum_sq(s: Seq<int>) -> int
    decreases s.len(),
{
    if s.len() == 0 {
        0
    } else {
        sum_sq(s.drop_last()) + s.last() * s.last()
    }
}

/// The second central moment sum, scaled by the count to clear the
/// mean's denominator: `n * sum_sq - sum^2`, which is `n` times the sum
/// of squared deviations from the mean.
pub open spec fn spread(s: Seq<int>) -> int {
    s.len() * sum_sq(s) - sum_of(s) * sum_of(s)
}

/// The sum of squared deviations of the samples from a fixed point `x`.
pub open spec fn sq_dev(s: Seq<int>, x: int) -> int
    decreases s.len(),
{
    if s.len() == 0 {
        0
    } else {
        sq_dev(s.drop_last(), x) + (x - s.last()) * (x - s.last())
    }
}

/// The sum of `(a * s[i] - b)^2` over the samples: the batch textbook
/// centered sum, with the mean `b / a` kept as a fraction.
pub open spec fn scaled_dev_sum(s: Seq<int>, a: int, b: int) -> int
    decreases s.len(),
{
    if s.len() == 0 {
        0
    } else {
        scaled_dev_sum(s.drop_last(), a, b) + (a * s.last() - b) * (a * s.last() - b)
    }
}

/// The cube of a value.
pub open spec fn cube(a: int) -> int {
    a * (a * a)
}

/// The sum of the cubed samples.
pub open spec fn sum_cube(s: Seq<int>) -> int
    decreases s.len(),
{
    if s.len() == 0 {
        0
    } else {
        sum_cube(s.drop_last()) + cube(s.last())
    }
}

/// The third central moment sum scaled by the squared count:
/// `n^2 * sum of (x_i - mean)^3`, with the mean's denominator cleared.
pub open spec fn spread3(s: Seq<int>) -> int {
    (s.len() * s.len()) * sum_cube(s) - 3 * s.len() * (sum_of(s) * sum_sq(s)) + 2 * cube(sum_of(s))
}

/// The sum of `(a * s[i] - b)^3` over the samples: the batch textbook
/// centered cube sum, with the mean `b / a` kept as a fraction.
pub open spec fn scaled_cube_sum(s: Seq<int>, a: int, b: int) -> int
    decreases s.len(),
{
    if s.len() == 0 {
        0
    } else {
        scaled_cube_sum(s.drop_last(), a, b) + cube(a * s.last() - b)
    }
}

/// Expanding the squares: `sq_dev` is a quadratic in `x`.
pub proof fn lemma_sq_dev_expand(s: Seq<int>, x: int)
    ensures
        sq_dev(s, x) == s.len() * (x * x) - 2 * x * sum_of(s) + sum_sq(s),
    decreases s.len(),
{
    if s.len() > 0 {
        lemma_sq_dev_expand(s.drop_last(), x);
        let l = s.last();
        let n0 = s.drop_last().len() as int;
        let sm0 = sum_of(s.drop_last());
        assert((n0 * (x * x) - 2 * x * sm0 + sum_sq(s.drop_last())) + (x - l) * (x - l) == (n0 + 1)
            * (x * x) - 2 * x * (sm0 + l) + (sum_sq(s.drop_last()) + l * l))
            by (nonlinear_arith);
    }
}

/// Expanding the squares: `scaled_dev_sum` in terms of the plain sums.
pub proof fn lemma_scaled_dev_expand(s: Seq<int>, a: int, b: int)
    ensures
        scaled_dev_sum(s, a, b) == a * a * sum_sq(s) - 2 * a * b * sum_of(s) + s.len() * (b * b),
    decreases s.len(),
{
    if s.len() > 0 {
        lemma_scaled_dev_expand(s.drop_last(), a, b);
        let l = s.last();
        let n0 = s.drop_last().len() as int;
        let sm0 = sum_of(s.drop_last());
        let q0 = sum_sq(s.drop_last());
        assert((a * a * q0 - 2 * a * b * sm0 + n0 * (b * b)) + (a * l - b) * (a * l - b) == a * a * (
        q0 + l * l) - 2 * a * b * (sm0 + l) + (n0 + 1) * (b * b)) by (nonlinear_arith);
    }
}

/// A sum of squared deviations is never negative.
pub proof fn lemma_sq_dev_nonneg(s: Seq<int>, x: int)
    ensures
        sq_dev(s, x) >= 0,
    decreases s.len(),
{
    if s.len() > 0 {
        lemma_sq_dev_nonneg(s.drop_last(), x);
        let l = s.last();
        assert((x - l) * (x - l) >= 0) by (nonlinear_arith);
    }
}

/// A zero sum of squared deviations forces every sample to equal the
/// fixed point.
pub proof fn lemma_sq_dev_zero(s: Seq<int>, x: int)
    requires
        sq_dev(s, x) == 0,
    ensures
        forall|i: int| 0 <= i < s.len() ==> s[i] == x,
    decreases s.len(),
{
    if s.len() > 0 {
        let l = s.last();
        lemma_sq_dev_nonneg(s.drop_last(), x);
        assert((x - l) * (x - l) >= 0) by (nonlinear_arith);
        assert((x - l) * (x - l) == 0);
        assert(x == l) by (nonlinear_arith)
            requires
                (x - l) * (x - l) == 0,
        ;
        lemma_sq_dev_zero(s.drop_last(), x);
        assert forall|i: int| 0 <= i < s.len() implies #[trigger] s[i] == x by {
            if i < s.len() - 1 {
                assert(s.drop_last()[i] == s[i]);
            }
        }
    }
}

/// One more sample changes the scaled moment by the new sample's
/// squared deviations from the previous samples: exactly the
/// non-negative quantity a single incremental step adds.
pub proof fn lemma_spread_push(s: Seq<int>, x: int)
    ensures
        spread(s.push(x)) == spread(s) + sq_dev(s, x),
{
    assert(s.push(x).drop_last() =~= s);
    lemma_sq_dev_expand(s, x);
    let n = s.len() as int;
    let sm = sum_of(s);
    let q = sum_sq(s);
    assert((n + 1) * (q + x * x) - (sm + x) * (sm + x) == (n * q - sm * sm) + (n * (x * x) - 2 * x
        * sm + q)) by (nonlinear_arith);
}

/// The scaled second central moment is never negative: in exact
/// arithmetic, `m2 >= 0` always.
pub proof fn lemma_spread_nonneg(s: Seq<int>)
    ensures
        spread(s) >= 0,
    decreases s.len(),
{
    if s.len() > 0 {
        let t = s.drop_last();
        lemma_spread_nonneg(t);
        lemma_sq_dev_nonneg(t, s.last());
        lemma_spread_push(t, s.last());
        assert(t.push(s.last()) =~= s);
    }
}

/// The single-pass recurrence agrees with the batch formula: with
/// denominators cleared, one incremental step turns the scaled moment
/// of `s` into the scaled moment of `s + [x]` by adding the square of
/// `n * x - sum`, which is `n * (n+1)` times `delta * delta_n * n` —
/// the `term1` a Welford-style update adds to `m2`.
pub proof fn lemma_welford_step(s: Seq<int>, x: int)
    ensures
        (s.len() as int) * spread(s.push(x)) == (s.len() + 1) * spread(s) + ((s.len() as int) * x
            - sum_of(s)) * ((s.len() as int) * x - sum_of(s)),
{
    lemma_spread_push(s, x);
    lemma_sq_dev_expand(s, x);
    let n = s.len() as int;
    let sm = sum_of(s);
    let q = sum_sq(s);
    let a = spread(s);
    let b = sq_dev(s, x);
    let u = n * x;
    assert(n * (a + b) == n * a + n * b) by (nonlinear_arith);
    assert((n + 1) * a == n * a + a) by (nonlinear_arith);
    assert(n * b == n * (n * (x * x)) - n * (2 * x * sm) + n * q) by (nonlinear_arith)
        requires
            b == n * (x * x) - 2 * x * sm + q,
    ;
    assert(n * (n * (x * x)) == u * u) by (nonlinear_arith)
        requires
            u == n * x,
    ;
    assert(n * (2 * x * sm) == 2 * u * sm) by (nonlinear_arith)
        requires
            u == n * x,
    ;
    assert((u - sm) * (u - sm) == u * u - 2 * u * sm + sm * sm) by (nonlinear_arith);
}

/// The batch textbook second moment — the sum of squared deviations
/// from the mean, with the mean kept as the fraction `sum / n` — equals
/// `n` times the scaled moment the incremental recurrence maintains.
/// This is the cross-engine equivalence of the second moment in exact
/// arithmetic.
pub proof fn lemma_batch_matches_incremental(s: Seq<int>)
    ensures
        scaled_dev_sum(s, s.len() as int, sum_of(s)) == (s.len() as int) * spread(s),
{
    lemma_scaled_dev_expand(s, s.len() as int, sum_of(s));
    let n = s.len() as int;
    let sm = sum_of(s);
    let q = sum_sq(s);
    assert(n * n * q - 2 * n * sm * sm + n * (sm * sm) == n * (n * q - sm * sm))
        by (nonlinear_arith);
}

/// The cubic step as a polynomial identity over plain integers.
proof fn lemma_cubic_step_identity(n: int, sm: int, q: int, sc: int, x: int)
    ensures
        (n * n) * ((n + 1) * (n + 1) * (sc + x * (x * x)) - 3 * (n + 1) * ((sm + x) * (q + x * x))
            + 2 * ((sm + x) * ((sm + x) * (sm + x)))) == ((n + 1) * (n + 1)) * ((n * n) * sc - 3
            * n * (sm * q) + 2 * (sm * (sm * sm))) + (n - 1) * ((n * x - sm) * ((n * x - sm) * (n
            * x - sm))) - 3 * (n + 1) * ((n * x - sm) * (n * q - sm * sm)),
{
    broadcast use vstd::arithmetic::mul::group_mul_is_commutative_and_distributive,
        vstd::arithmetic::mul::lemma_mul_is_associative;

}

/// The single-pass third-moment recurrence agrees with the batch
/// formula: with denominators cleared, one incremental step turns the
/// scaled third moment of `s` into that of `s + [x]` by adding the
/// cube and spread terms a Terriberry-style update adds to `m3`.
pub proof fn lemma_terriberry_step(s: Seq<int>, x: int)
    ensures
        ((s.len() * s.len()) as int) * spread3(s.push(x)) == ((s.len() + 1) * (s.len() + 1))
            * spread3(s) + (s.len() - 1) * cube((s.len() as int) * x - sum_of(s)) - 3 * (s.len()
            + 1) * (((s.len() as int) * x - sum_of(s)) * spread(s)),
{
    assert(s.push(x).drop_last() =~= s);
    let n = s.len() as int;
    let sm = sum_of(s);
    let q = sum_sq(s);
    let sc = sum_cube(s);
    assert(sum_of(s.push(x)) == sm + x);
    assert(sum_sq(s.push(x)) == q + x * x);
    assert(sum_cube(s.push(x)) == sc + x * (x * x));
    lemma_cubic_step_identity(n, sm, q, sc, x);
}

/// The cube of a scaled difference, expanded into monomials.
proof fn lemma_cube_diff_expand(a: int, l: int, b: int)
    ensures
        cube(a * l - b) == (a * (a * a)) * (l * (l * l)) - 3 * (((a * a) * b) * (l * l)) + 3 * ((a
            * (b * b)) * l) - b * (b * b),
{
    broadcast use vstd::arithmetic::mul::group_mul_is_commutative_and_distributive,
        vstd::arithmetic::mul::lemma_mul_is_associative;

}

/// Expanding the cubes: `scaled_cube_sum` in terms of the plain sums.
proof fn lemma_scaled_cube_expand(s: Seq<int>, a: int, b: int)
    ensures
        scaled_cube_sum(s, a, b) == (a * (a * a)) * sum_cube(s) - 3 * (((a * a) * b) * sum_sq(s))
            + 3 * ((a * (b * b)) * sum_of(s)) - s.len() * (b * (b * b)),
    decreases s.len(),
{
    if s.len() > 0 {
        let t = s.drop_last();
        let l = s.last();
        lemma_scaled_cube_expand(t, a, b);
        lemma_cube_diff_expand(a, l, b);
        assert((a * (a * a)) * sum_cube(s) == (a * (a * a)) * sum_cube(t) + (a * (a * a)) * (l * (l
            * l))) by (nonlinear_arith)
            requires
                sum_cube(s) == sum_cube(t) + l * (l * l),
        ;
        assert(((a * a) * b) * sum_sq(s) == ((a * a) * b) * sum_sq(t) + ((a * a) * b) * (l * l))
            by (nonlinear_arith)
            requires
                sum_sq(s) == sum_sq(t) + l * l,
        ;
        assert((a * (b * b)) * sum_of(s) == (a * (b * b)) * sum_of(t) + (a * (b * b)) * l)
            by (nonlinear_arith)
            requires
                sum_of(s) == sum_of(t) + l,
        ;
        assert(s.len() * (b * (b * b)) == t.len() * (b * (b * b)) + b * (b * b))
            by (nonlinear_arith)
            requires
                s.len() == t.len() + 1,
        ;
    }
}

/// The common factors of the expanded batch third moment, regrouped as
/// the count times the scaled third moment.
proof fn lemma_third_match_identity(n: int, sm: int, q: int, sc: int)
    ensures
        (n * (n * n)) * sc - 3 * (((n * n) * sm) * q) + 3 * ((n * (sm * sm)) * sm) - n * (sm * (sm
            * sm)) == n * ((n * n) * sc - (3 * n) * (sm * q) + 2 * (sm * (sm * sm))),
{
    broadcast use vstd::arithmetic::mul::group_mul_is_commutative_and_distributive,
        vstd::arithmetic::mul::lemma_mul_is_associative;

}

/// The batch textbook third moment — the sum of cubed deviations from
/// the mean, with the mean kept as the fraction `sum / n` — equals `n`
/// times the scaled third moment the incremental recurrence maintains.
pub proof fn lemma_batch_third_matches_incremental(s: Seq<int>)
    ensures
        scaled_cube_sum(s, s.len() as int, sum_of(s)) == (s.len() as int) * spread3(s),
{
    let n = s.len() as int;
    let sm = sum_of(s);
    lemma_scaled_cube_expand(s, n, sm);
    lemma_third_match_identity(n, sm, sum_sq(s), sum_cube(s));
}

/// The fourth power of a value.
pub open spec fn pow4(a: int) -> int {
    a * (a * (a * a))
}

/// The sum of the fourth powers of the samples.
pub open spec fn sum_pow4(s: Seq<int>) -> int
    decreases s.len(),
{
    if s.len() == 0 {
        0
    } else {
        sum_pow4(s.drop_last()) + pow4(s.last())
    }
}

/// The fourth central moment sum scaled by the cubed count:
/// `n^3 * sum of (x_i - mean)^4`, with the mean's denominator cleared.
pub open spec fn spread4(s: Seq<int>) -> int {
    (s.len() * (s.len() * s.len())) * sum_pow4(s) - 4 * ((s.len() * s.len()) * (sum_of(s)
        * sum_cube(s))) + 6 * (s.len() * ((sum_of(s) * sum_of(s)) * sum_sq(s))) - 3 * ((sum_of(s)
        * sum_of(s)) * (sum_of(s) * sum_of(s)))
}

// The quartic step identity is assembled from mechanical monomial
// expansions of each of its five products, one helper each.

#[verifier::rlimit(50)]
#[verifier::spinoff_prover]
proof fn lemma_quartic_push_expand(n: int, sm: int, q: int, sc: int, s4: int, x: int)
    ensures
        ((n + 1) * ((n + 1) * (n + 1))) * (s4 + x * (x * (x * x))) - 4 * (((n + 1) * (n + 1)) * ((sm + x) * (sc + x * (x * x)))) + 6 * ((n + 1) * (((sm + x) * (sm + x)) * (q + x * x))) - 3 * (((sm + x) * (sm + x)) * ((sm + x) * (sm + x)))
            == (n * (n * (n * (s4)))) + (n * (n * (n * (x * (x * (x * (x))))))) - 4 * (n * (n * (sm * (sc)))) - 4 * (n * (n * (sm * (x * (x * (x)))))) - 4 * (n * (n * (sc * (x)))) + 3 * (n * (n * (s4))) - (n * (n * (x * (x * (x * (x)))))) + 6 * (n * (sm * (sm * (q)))) + 6 * (n * (sm * (sm * (x * (x))))) + 12 * (n * (sm * (q * (x)))) - 8 * (n * (sm * (sc))) + 4 * (n * (sm * (x * (x * (x))))) + 6 * (n * (q * (x * (x)))) - 8 * (n * (sc * (x))) + 3 * (n * (s4)) + (n * (x * (x * (x * (x))))) - 3 * (sm * (sm * (sm * (sm)))) - 12 * (sm * (sm * (sm * (x)))) + 6 * (sm * (sm * (q))) - 12 * (sm * (sm * (x * (x)))) + 12 * (sm * (q * (x))) - 4 * (sm * (sc)) - 4 * (sm * (x * (x * (x)))) + 6 * (q * (x * (x))) - 4 * (sc * (x)) + (s4),
{
    broadcast use vstd::arithmetic::mul::group_mul_is_commutative_and_distributive,
        vstd::arithmetic::mul::lemma_mul_is_associative;

}

#[verifier::spinoff_prover]
proof fn lemma_quartic_push_scaled(n: int, sm: int, q: int, sc: int, s4: int, x: int, t: int)
    requires
        t == (n * (n * (n * (s4)))) + (n * (n * (n * (x * (x * (x * (x))))))) - 4 * (n * (n * (sm * (sc)))) - 4 * (n * (n * (sm * (x * (x * (x)))))) - 4 * (n * (n * (sc * (x)))) + 3 * (n * (n * (s4))) - (n * (n * (x * (x * (x * (x)))))) + 6 * (n * (sm * (sm * (q)))) + 6 * (n * (sm * (sm * (x * (x))))) + 12 * (n * (sm * (q * (x)))) - 8 * (n * (sm * (sc))) + 4 * (n * (sm * (x * (x * (x))))) + 6 * (n * (q * (x * (x)))) - 8 * (n * (sc * (x))) + 3 * (n * (s4)) + (n * (x * (x * (x * (x))))) - 3 * (sm * (sm * (sm * (sm)))) - 12 * (sm * (sm * (sm * (x)))) + 6 * (sm * (sm * (q))) - 12 * (sm * (sm * (x * (x)))) + 12 * (sm * (q * (x))) - 4 * (sm * (sc)) - 4 * (sm * (x * (x * (x)))) + 6 * (q * (x * (x))) - 4 * (sc * (x)) + (s4),
    ensures
        (n * (n * n)) * t == (n * (n * (n * (n * (n * (n * (s4))))))) + (n * (n * (n * (n * (n * (n * (x * (x * (x * (x)))))))))) - 4 * (n * (n * (n * (n * (n * (sm * (sc))))))) - 4 * (n * (n * (n * (n * (n * (sm * (x * (x * (x))))))))) - 4 * (n * (n * (n * (n * (n * (sc * (x))))))) + 3 * (n * (n * (n * (n * (n * (s4)))))) - (n * (n * (n * (n * (n * (x * (x * (x * (x))))))))) + 6 * (n * (n * (n * (n * (sm * (sm * (q))))))) + 6 * (n * (n * (n * (n * (sm * (sm * (x * (x)))))))) + 12 * (n * (n * (n * (n * (sm * (q * (x))))))) - 8 * (n * (n * (n * (n * (sm * (sc)))))) + 4 * (n * (n * (n * (n * (sm * (x * (x * (x)))))))) + 6 * (n * (n * (n * (n * (q * (x * (x))))))) - 8 * (n * (n * (n * (n * (sc * (x)))))) + 3 * (n * (n * (n * (n * (s4))))) + (n * (n * (n * (n * (x * (x * (x * (x)))))))) - 3 * (n * (n * (n * (sm * (sm * (sm * (sm))))))) - 12 * (n * (n * (n * (sm * (sm * (sm * (x))))))) + 6 * (n * (n * (n * (sm * (sm * (q)))))) - 12 * (n * (n * (n * (sm * (sm * (x * (x))))))) + 12 * (n * (n * (n * (sm * (q * (x)))))) - 4 * (n * (n * (n * (sm * (sc))))) - 4 * (n * (n * (n * (sm * (x * (x * (x))))))) + 6 * (n * (n * (n * (q * (x * (x)))))) - 4 * (n * (n * (n * (sc * (x))))) + (n * (n * (n * (s4)))),
{
    broadcast use vstd::arithmetic::mul::group_mul_is_commutative_and_distributive,
        vstd::arithmetic::mul::lemma_mul_is_associative;

}

#[verifier::spinoff_prover]
proof fn lemma_quartic_old_scaled(n: int, sm: int, q: int, sc: int, s4: int, x: int)
    ensures
        ((n + 1) * ((n + 1) * (n + 1))) * ((n * (n * n)) * s4 - 4 * ((n * n) * (sm * sc)) + 6 * (n * ((sm * sm) * q)) - 3 * ((sm * sm) * (sm * sm)))
            == (n * (n * (n * (n * (n * (n * (s4))))))) - 4 * (n * (n * (n * (n * (n * (sm * (sc))))))) + 3 * (n * (n * (n * (n * (n * (s4)))))) + 6 * (n * (n * (n * (n * (sm * (sm * (q))))))) - 12 * (n * (n * (n * (n * (sm * (sc)))))) + 3 * (n * (n * (n * (n * (s4))))) - 3 * (n * (n * (n * (sm * (sm * (sm * (sm))))))) + 18 * (n * (n * (n * (sm * (sm * (q)))))) - 12 * (n * (n * (n * (sm * (sc))))) + (n * (n * (n * (s4)))) - 9 * (n * (n * (sm * (sm * (sm * (sm)))))) + 18 * (n * (n * (sm * (sm * (q))))) - 4 * (n * (n * (sm * (sc)))) - 9 * (n * (sm * (sm * (sm * (sm))))) + 6 * (n * (sm * (sm * (q)))) - 3 * (sm * (sm * (sm * (sm)))),
{
    broadcast use vstd::arithmetic::mul::group_mul_is_commutative_and_distributive,
        vstd::arithmetic::mul::lemma_mul_is_associative;

}

#[verifier::rlimit(50)]
#[verifier::spinoff_prover]
proof fn lemma_quartic_dev_scaled(n: int, sm: int, q: int, sc: int, s4: int, x: int)
    ensures
        ((n + 1) * (n + 1) - 3 * (n + 1) + 3) * ((n * x - sm) * ((n * x - sm) * ((n * x - sm) * (n * x - sm))))
            == (n * (n * (n * (n * (n * (n * (x * (x * (x * (x)))))))))) - 4 * (n * (n * (n * (n * (n * (sm * (x * (x * (x))))))))) - (n * (n * (n * (n * (n * (x * (x * (x * (x))))))))) + 6 * (n * (n * (n * (n * (sm * (sm * (x * (x)))))))) + 4 * (n * (n * (n * (n * (sm * (x * (x * (x)))))))) + (n * (n * (n * (n * (x * (x * (x * (x)))))))) - 4 * (n * (n * (n * (sm * (sm * (sm * (x))))))) - 6 * (n * (n * (n * (sm * (sm * (x * (x))))))) - 4 * (n * (n * (n * (sm * (x * (x * (x))))))) + (n * (n * (sm * (sm * (sm * (sm)))))) + 4 * (n * (n * (sm * (sm * (sm * (x)))))) + 6 * (n * (n * (sm * (sm * (x * (x)))))) - (n * (sm * (sm * (sm * (sm))))) - 4 * (n * (sm * (sm * (sm * (x))))) + (sm * (sm * (sm * (sm)))),
{
    broadcast use vstd::arithmetic::mul::group_mul_is_commutative_and_distributive,
        vstd::arithmetic::mul::lemma_mul_is_associative;

}

#[verifier::rlimit(50)]
#[verifier::spinoff_prover]
proof fn lemma_quartic_spread_term(n: int, sm: int, q: int, sc: int, s4: int, x: int)
    ensures
        6 * ((n + 1) * (((n * x - sm) * (n * x - sm)) * (n * q - sm * sm)))
            == 6 * (n * (n * (n * (n * (q * (x * (x))))))) - 6 * (n * (n * (n * (sm * (sm * (x * (x))))))) - 12 * (n * (n * (n * (sm * (q * (x)))))) + 6 * (n * (n * (n * (q * (x * (x)))))) + 12 * (n * (n * (sm * (sm * (sm * (x)))))) + 6 * (n * (n * (sm * (sm * (q))))) - 6 * (n * (n * (sm * (sm * (x * (x)))))) - 12 * (n * (n * (sm * (q * (x))))) - 6 * (n * (sm * (sm * (sm * (sm))))) + 12 * (n * (sm * (sm * (sm * (x))))) + 6 * (n * (sm * (sm * (q)))) - 6 * (sm * (sm * (sm * (sm)))),
{
    broadcast use vstd::arithmetic::mul::group_mul_is_commutative_and_distributive,
        vstd::arithmetic::mul::lemma_mul_is_associative;

}

#[verifier::rlimit(50)]
#[verifier::spinoff_prover]
proof fn lemma_quartic_third_term(n: int, sm: int, q: int, sc: int, s4: int, x: int)
    ensures
        4 * (((n + 1) * (n + 1)) * ((n * x - sm) * ((n * n) * sc - 3 * (n * (sm * q)) + 2 * (sm * (sm * sm)))))
            == 4 * (n * (n * (n * (n * (n * (sc * (x))))))) - 12 * (n * (n * (n * (n * (sm * (q * (x))))))) - 4 * (n * (n * (n * (n * (sm * (sc)))))) + 8 * (n * (n * (n * (n * (sc * (x)))))) + 8 * (n * (n * (n * (sm * (sm * (sm * (x))))))) + 12 * (n * (n * (n * (sm * (sm * (q)))))) - 24 * (n * (n * (n * (sm * (q * (x)))))) - 8 * (n * (n * (n * (sm * (sc))))) + 4 * (n * (n * (n * (sc * (x))))) - 8 * (n * (n * (sm * (sm * (sm * (sm)))))) + 16 * (n * (n * (sm * (sm * (sm * (x)))))) + 24 * (n * (n * (sm * (sm * (q))))) - 12 * (n * (n * (sm * (q * (x))))) - 4 * (n * (n * (sm * (sc)))) - 16 * (n * (sm * (sm * (sm * (sm))))) + 8 * (n * (sm * (sm * (sm * (x))))) + 12 * (n * (sm * (sm * (q)))) - 8 * (sm * (sm * (sm * (sm)))),
{
    broadcast use vstd::arithmetic::mul::group_mul_is_commutative_and_distributive,
        vstd::arithmetic::mul::lemma_mul_is_associative;

}

/// The quartic step as a polynomial identity over plain integers.
#[verifier::spinoff_prover]
proof fn lemma_quartic_step_identity(n: int, sm: int, q: int, sc: int, s4: int, x: int)
    ensures
        (n * (n * n)) * (((n + 1) * ((n + 1) * (n + 1))) * (s4 + x * (x * (x * x))) - 4 * (((n + 1) * (n + 1)) * ((sm + x) * (sc + x * (x * x)))) + 6 * ((n + 1) * (((sm + x) * (sm + x)) * (q + x * x))) - 3 * (((sm + x) * (sm + x)) * ((sm + x) * (sm + x))))
            == ((n + 1) * ((n + 1) * (n + 1))) * ((n * (n * n)) * s4 - 4 * ((n * n) * (sm * sc)) + 6 * (n * ((sm * sm) * q)) - 3 * ((sm * sm) * (sm * sm)))
                + ((n + 1) * (n + 1) - 3 * (n + 1) + 3) * ((n * x - sm) * ((n * x - sm) * ((n * x - sm) * (n * x - sm))))
                + 6 * ((n + 1) * (((n * x - sm) * (n * x - sm)) * (n * q - sm * sm)))
                - 4 * (((n + 1) * (n + 1)) * ((n * x - sm) * ((n * n) * sc - 3 * (n * (sm * q)) + 2 * (sm * (sm * sm))))),
{
    lemma_quartic_push_expand(n, sm, q, sc, s4, x);
    let t = ((n + 1) * ((n + 1) * (n + 1))) * (s4 + x * (x * (x * x))) - 4 * (((n + 1) * (n + 1)) * ((sm + x) * (sc + x * (x * x)))) + 6 * ((n + 1) * (((sm + x) * (sm + x)) * (q + x * x))) - 3 * (((sm + x) * (sm + x)) * ((sm + x) * (sm + x)));
    lemma_quartic_push_scaled(n, sm, q, sc, s4, x, t);
    lemma_quartic_old_scaled(n, sm, q, sc, s4, x);
    lemma_quartic_dev_scaled(n, sm, q, sc, s4, x);
    lemma_quartic_spread_term(n, sm, q, sc, s4, x);
    lemma_quartic_third_term(n, sm, q, sc, s4, x);
}

/// The single-pass fourth-moment recurrence agrees with the batch
/// formula: with denominators cleared, one incremental step turns the
/// scaled fourth moment of `s` into that of `s + [x]` by adding
/// exactly the deviation, spread and third-moment terms a Pébay-style
/// update adds to `m4`.
pub proof fn lemma_pebay_step(s: Seq<int>, x: int)
    ensures
        ((s.len() * (s.len() * s.len())) as int) * spread4(s.push(x)) == ((s.len() + 1) * ((s.len()
            + 1) * (s.len() + 1))) * spread4(s) + ((s.len() + 1) * (s.len() + 1) - 3 * (s.len()
            + 1) + 3) * pow4((s.len() as int) * x - sum_of(s)) + 6 * ((s.len() + 1) * ((((
        s.len() as int) * x - sum_of(s)) * ((s.len() as int) * x - sum_of(s))) * spread(s))) - 4 * ((
        (s.len() + 1) * (s.len() + 1)) * (((s.len() as int) * x - sum_of(s)) * spread3(s))),
{
    assert(s.push(x).drop_last() =~= s);
    let n = s.len() as int;
    let sm = sum_of(s);
    let q = sum_sq(s);
    let sc = sum_cube(s);
    let s4 = sum_pow4(s);
    assert(sum_of(s.push(x)) == sm + x);
    assert(sum_sq(s.push(x)) == q + x * x);
    assert(sum_cube(s.push(x)) == sc + x * (x * x));
    assert(sum_pow4(s.push(x)) == s4 + x * (x * (x * x)));
    lemma_quartic_step_identity(n, sm, q, sc, s4, x);
    assert(spread(s) == n * q - sm * sm);
    assert(spread3(s) == (n * n) * sum_cube(s) - 3 * (n * (sm * q)) + 2 * (sm * (sm * sm)))
        by (nonlinear_arith)
        requires
            spread3(s) == ((s.len() * s.len()) as int) * sum_cube(s) - 3 * (s.len() as int) * (
            sum_of(s) * sum_sq(s)) + 2 * (sum_of(s) * (sum_of(s) * sum_of(s))),
            n == s.len() as int,
            sm == sum_of(s),
            q == sum_sq(s),
            sc == sum_cube(s),
    ;
}

/// The sum of `(a * s[i] - b)^4` over the samples: the batch textbook
/// centered fourth-power sum, with the mean `b / a` kept as a fraction.
pub open spec fn scaled_pow4_sum(s: Seq<int>, a: int, b: int) -> int
    decreases s.len(),
{
    if s.len() == 0 {
        0
    } else {
        scaled_pow4_sum(s.drop_last(), a, b) + pow4(a * s.last() - b)
    }
}

/// The fourth power of a scaled difference, expanded into monomials.
#[verifier::rlimit(50)]
#[verifier::spinoff_prover]
proof fn lemma_pow4_diff_expand(a: int, l: int, b: int)
    ensures
        pow4(a * l - b) == (a * (a * (a * a))) * (l * (l * (l * l))) - 4 * (((a * (a * a)) * b) * (l
            * (l * l))) + 6 * (((a * a) * (b * b)) * (l * l)) - 4 * ((a * (b * (b * b))) * l) + b
            * (b * (b * b)),
{
    broadcast use vstd::arithmetic::mul::group_mul_is_commutative_and_distributive,
        vstd::arithmetic::mul::lemma_mul_is_associative;

}

/// Expanding the fourth powers: `scaled_pow4_sum` in terms of the
/// plain sums.
proof fn lemma_scaled_pow4_expand(s: Seq<int>, a: int, b: int)
    ensures
        scaled_pow4_sum(s, a, b) == (a * (a * (a * a))) * sum_pow4(s) - 4 * (((a * (a * a)) * b)
            * sum_cube(s)) + 6 * (((a * a) * (b * b)) * sum_sq(s)) - 4 * ((a * (b * (b * b)))
            * sum_of(s)) + s.len() * (b * (b * (b * b))),
    decreases s.len(),
{
    if s.len() > 0 {
        let t = s.drop_last();
        let l = s.last();
        lemma_scaled_pow4_expand(t, a, b);
        lemma_pow4_diff_expand(a, l, b);
        assert((a * (a * (a * a))) * sum_pow4(s) == (a * (a * (a * a))) * sum_pow4(t) + (a * (a * (a
            * a))) * (l * (l * (l * l)))) by (nonlinear_arith)
            requires
                sum_pow4(s) == sum_pow4(t) + l * (l * (l * l)),
        ;
        assert(((a * (a * a)) * b) * sum_cube(s) == ((a * (a * a)) * b) * sum_cube(t) + ((a * (a
            * a)) * b) * (l * (l * l))) by (nonlinear_arith)
            requires
                sum_cube(s) == sum_cube(t) + l * (l * l),
        ;
        assert(((a * a) * (b * b)) * sum_sq(s) == ((a * a) * (b * b)) * sum_sq(t) + ((a * a) * (b
            * b)) * (l * l)) by (nonlinear_arith)
            requires
                sum_sq(s) == sum_sq(t) + l * l,
        ;
        assert((a * (b * (b * b))) * sum_of(s) == (a * (b * (b * b))) * sum_of(t) + (a * (b * (b
            * b))) * l) by (nonlinear_arith)
            requires
                sum_of(s) == sum_of(t) + l,
        ;
        assert(s.len() * (b * (b * (b * b))) == t.len() * (b * (b * (b * b))) + b * (b * (b * b)))
            by (nonlinear_arith)
            requires
                s.len() == t.len() + 1,
        ;
    }
}

/// The common factors of the expanded batch fourth moment, regrouped
/// as the count times the scaled fourth moment.
#[verifier::spinoff_prover]
proof fn lemma_fourth_match_identity(n: int, sm: int, q: int, sc: int, s4: int)
    ensures
        (n * (n * (n * n))) * s4 - 4 * (((n * (n * n)) * sm) * sc) + 6 * (((n * n) * (sm * sm))
            * q) - 4 * ((n * (sm * (sm * sm))) * sm) + n * (sm * (sm * (sm * sm))) == n * ((n * (n
            * n)) * s4 - 4 * ((n * n) * (sm * sc)) + 6 * (n * ((sm * sm) * q)) - 3 * ((sm * sm)
            * (sm * sm))),
{
    broadcast use vstd::arithmetic::mul::group_mul_is_commutative_and_distributive,
        vstd::arithmetic::mul::lemma_mul_is_associative;

}

/// The batch textbook fourth moment — the sum of fourth powers of the
/// deviations from the mean, with the mean kept as the fraction
/// `sum / n` — equals `n` times the scaled fourth moment the
/// incremental recurrence maintains.
pub proof fn lemma_batch_fourth_matches_incremental(s: Seq<int>)
    ensures
        scaled_pow4_sum(s, s.len() as int, sum_of(s)) == (s.len() as int) * spread4(s),
{
    let n = s.len() as int;
    let sm = sum_of(s);
    lemma_scaled_pow4_expand(s, n, sm);
    lemma_fourth_match_identity(n, sm, sum_sq(s), sum_cube(s), sum_pow4(s));
}

/// The power sums are additive over concatenation, so accumulating a
/// sequence in chunks reaches the same sums — and hence the same
/// scaled moment — as accumulating it at once.
pub proof fn lemma_sums_concat(s: Seq<int>, t: Seq<int>)
    ensures
        sum_of(s + t) == sum_of(s) + sum_of(t),
        sum_sq(s + t) == sum_sq(s) + sum_sq(t),
        sum_cube(s + t) == sum_cube(s) + sum_cube(t),
        sum_pow4(s + t) == sum_pow4(s) + sum_pow4(t),
    decreases t.len(),
{
    if t.len() == 0 {
        assert(s + t =~= s);
    } else {
        lemma_sums_concat(s, t.drop_last());
        assert((s + t).drop_last() =~= s + t.drop_last());
        assert((s + t).last() == t.last());
    }
}

/// Sums of a constant sequence.
proof fn lemma_constant_sums(s: Seq<int>, c: int)
    requires
        forall|i: int| 0 <= i < s.len() ==> s[i] == c,
    ensures
        sum_of(s) == s.len() * c,
        sum_sq(s) == s.len() * (c * c),
    decreases s.len(),
{
    if s.len() > 0 {
        assert forall|i: int| 0 <= i < s.drop_last().len() implies s.drop_last()[i] == c by {
            assert(s.drop_last()[i] == s[i]);
        }
        lemma_constant_sums(s.drop_last(), c);
        let n0 = s.drop_last().len() as int;
        assert(s.last() == s[s.len() - 1] == c);
        assert(n0 * c + c == (n0 + 1) * c) by (nonlinear_arith);
        assert(n0 * (c * c) + c * c == (n0 + 1) * (c * c)) by (nonlinear_arith);
    }
}

/// The scaled second central moment is zero exactly when every sample
/// equals the first one: constant data, and only constant data, has
/// zero variance in exact arithmetic.
pub proof fn lemma_zero_spread_iff_constant(s: Seq<int>)
    ensures
        spread(s) == 0 <==> (forall|i: int| 0 <= i < s.len() ==> #[trigger] s[i] == s[0]),
    decreases s.len(),
{
    if s.len() == 0 {
    } else if s.len() == 1 {
        assert(sum_sq(s.drop_last()) == 0);
        assert(sum_of(s.drop_last()) == 0);
        assert(s.last() == s[0]);
        assert(sum_sq(s) == s[0] * s[0]);
        assert(sum_of(s) == s[0]);
        assert(spread(s) == 0) by (nonlinear_arith)
            requires
                s.len() == 1,
                sum_sq(s) == s[0] * s[0],
                sum_of(s) == s[0],
                spread(s) == s.len() * sum_sq(s) - sum_of(s) * sum_of(s),
        ;
    } else {
        let t = s.drop_last();
        let x = s.last();
        lemma_spread_push(t, x);
        assert(t.push(x) =~= s);
        lemma_spread_nonneg(t);
        lemma_sq_dev_nonneg(t, x);
        lemma_zero_spread_iff_constant(t);
        assert(t[0] == s[0]);
        if spread(s) == 0 {
            lemma_sq_dev_zero(t, x);
            assert(t[0] == x);
            assert forall|i: int| 0 <= i < s.len() implies #[trigger] s[i] == s[0] by {
                if i < s.len() - 1 {
                    assert(t[i] == s[i]);
                }
            }
        }
        if forall|i: int| 0 <= i < s.len() ==> #[trigger] s[i] == s[0] {
            assert forall|i: int| 0 <= i < t.len() implies #[trigger] t[i] == t[0] by {
                assert(t[i] == s[i]);
            }
            assert(spread(t) == 0);
            lemma_constant_sums(t, s[0]);
            assert(x == s[s.len() - 1] == s[0]);
            let n0 = t.len() as int;
            assert(sq_dev(t, x) == n0 * (x * x) - 2 * x * (n0 * x) + n0 * (x * x)) by {
                lemma_sq_dev_expand(t, x);
            }
            assert(n0 * (x * x) - 2 * x * (n0 * x) + n0 * (x * x) == 0) by (nonlinear_arith);
        }
    }
}

} // verus!
