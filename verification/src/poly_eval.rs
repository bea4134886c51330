//! Evaluation of polynomials as sums over their coefficient functions,
//! used to relate Horner evaluation to the ring operations.
use vstd::prelude::*;
use vstd::arithmetic::div_mod::*;
use vstd::arithmetic::mul::*;

use crate::field_arith::prime;
use crate::poly_spec::{coeff, conv, horner, lemma_conv_beyond, lemma_mul_coeff, mul_coeff, poly_mul};

verus! {

/// `c(0) + x * (c(1) + x * (... + x * c(n - 1)))` over the integers.
pub open spec fn hsum(c: spec_fn(int) -> int, x: int, n: nat) -> int
    decreases n,
{
    if n == 0 {
        0
    } else {
        c(0) + x * hsum(|i: int| c(i + 1), x, (n - 1) as nat)
    }
}

/// The coefficient function of a sequence.
pub open spec fn coeff_fn(s: Seq<int>) -> spec_fn(int) -> int {
    |i: int| coeff(s, i)
}

/// `hsum` reads only the first `n` values.
pub proof fn lemma_hsum_ext(u: spec_fn(int) -> int, v: spec_fn(int) -> int, x: int, n: nat)
    requires
        forall|i: int| 0 <= i < n ==> #[trigger] u(i) == v(i),
    ensures
        hsum(u, x, n) == hsum(v, x, n),
    decreases n,
{
    if n > 0 {
        let u1 = |i: int| u(i + 1);
        let v1 = |i: int| v(i + 1);
        assert forall|i: int| 0 <= i < n - 1 implies #[trigger] u1(i) == v1(i) by {
            assert(u(i + 1) == v(i + 1));
        }
        lemma_hsum_ext(u1, v1, x, (n - 1) as nat);
        assert(u(0) == v(0));
    }
}

/// Zero values from index `m` on add nothing.
pub proof fn lemma_hsum_zero_tail(u: spec_fn(int) -> int, x: int, m: nat, n: nat)
    requires
        m <= n,
        forall|i: int| m <= i < n ==> #[trigger] u(i) == 0,
    ensures
        hsum(u, x, n) == hsum(u, x, m),
    decreases n,
{
    if n > 0 {
        let u1 = |i: int| u(i + 1);
        if m == 0 {
            assert forall|i: int| 0 <= i < n - 1 implies #[trigger] u1(i) == 0 by {
                assert(u(i + 1) == 0);
            }
            lemma_hsum_zero_tail(u1, x, 0, (n - 1) as nat);
            assert(u(0) == 0);
            assert(x * 0 == 0);
        } else {
            assert forall|i: int| m - 1 <= i < n - 1 implies #[trigger] u1(i) == 0 by {
                assert(u(i + 1) == 0);
            }
            lemma_hsum_zero_tail(u1, x, (m - 1) as nat, (n - 1) as nat);
        }
    }
}

/// `hsum` is additive in its coefficient function.
pub proof fn lemma_hsum_add(u: spec_fn(int) -> int, v: spec_fn(int) -> int, x: int, n: nat)
    ensures
        hsum(|i: int| u(i) + v(i), x, n) == hsum(u, x, n) + hsum(v, x, n),
    decreases n,
{
    if n > 0 {
        let w = |i: int| u(i) + v(i);
        let u1 = |i: int| u(i + 1);
        let v1 = |i: int| v(i + 1);
        let w1 = |i: int| w(i + 1);
        let s1 = |i: int| u1(i) + v1(i);
        lemma_hsum_add(u1, v1, x, (n - 1) as nat);
        assert forall|i: int| 0 <= i < n - 1 implies #[trigger] w1(i) == s1(i) by {}
        lemma_hsum_ext(w1, s1, x, (n - 1) as nat);
        lemma_mul_is_distributive_add(x, hsum(u1, x, (n - 1) as nat), hsum(v1, x, (n - 1) as nat));
    }
}

/// `hsum` is homogeneous in its coefficient function.
pub proof fn lemma_hsum_scale(u: spec_fn(int) -> int, c: int, x: int, n: nat)
    ensures
        hsum(|i: int| c * u(i), x, n) == c * hsum(u, x, n),
    decreases n,
{
    if n > 0 {
        let w = |i: int| c * u(i);
        let u1 = |i: int| u(i + 1);
        let w1 = |i: int| w(i + 1);
        let s1 = |i: int| c * u1(i);
        lemma_hsum_scale(u1, c, x, (n - 1) as nat);
        assert forall|i: int| 0 <= i < n - 1 implies #[trigger] w1(i) == s1(i) by {}
        lemma_hsum_ext(w1, s1, x, (n - 1) as nat);
        let h = hsum(u1, x, (n - 1) as nat);
        lemma_mul_is_associative(x, c, h);
        lemma_mul_is_associative(c, x, h);
        lemma_mul_is_commutative(x, c);
        lemma_mul_is_distributive_add(c, u(0), x * h);
    }
}

/// Reducing each coefficient modulo `p` does not change `hsum` modulo `p`.
pub proof fn lemma_hsum_mod(u: spec_fn(int) -> int, x: int, n: nat)
    ensures
        hsum(|i: int| u(i) % prime(), x, n) % prime() == hsum(u, x, n) % prime(),
    decreases n,
{
    if n > 0 {
        let p = prime();
        let w = |i: int| u(i) % p;
        let u1 = |i: int| u(i + 1);
        let w1 = |i: int| w(i + 1);
        let s1 = |i: int| u1(i) % p;
        lemma_hsum_mod(u1, x, (n - 1) as nat);
        assert forall|i: int| 0 <= i < n - 1 implies #[trigger] w1(i) == s1(i) by {}
        lemma_hsum_ext(w1, s1, x, (n - 1) as nat);
        let a = hsum(w1, x, (n - 1) as nat);
        let b = hsum(u1, x, (n - 1) as nat);
        lemma_mul_mod_noop_right(x, a, p);
        lemma_mul_mod_noop_right(x, b, p);
        assert((x * a) % p == (x * b) % p);
        lemma_add_mod_noop(u(0) % p, x * a, p);
        lemma_add_mod_noop(u(0), x * b, p);
        lemma_mod_twice(u(0), p);
    }
}

/// Horner evaluation is `hsum` of the coefficients, reduced modulo `p`.
pub proof fn lemma_horner_hsum(s: Seq<int>, x: int)
    ensures
        horner(s, x) == hsum(coeff_fn(s), x, s.len()) % prime(),
    decreases s.len(),
{
    if s.len() > 0 {
        let p = prime();
        let t = s.drop_first();
        lemma_horner_hsum(t, x);
        let c = coeff_fn(s);
        let c1 = |i: int| c(i + 1);
        assert forall|i: int| 0 <= i < t.len() implies #[trigger] c1(i) == coeff_fn(t)(i) by {}
        lemma_hsum_ext(c1, coeff_fn(t), x, t.len());
        let h = hsum(coeff_fn(t), x, t.len());
        assert(c(0) == s[0]);
        assert(hsum(c, x, s.len()) == c(0) + x * hsum(c1, x, t.len()));
        assert(horner(s, x) == (horner(t, x) * x + s[0]) % p);
        lemma_mul_is_commutative(h % p, x);
        lemma_mul_is_commutative(h, x);
        lemma_mul_mod_noop_right(x, h, p);
        lemma_add_mod_noop(x * (h % p), s[0], p);
        lemma_add_mod_noop(x * h, s[0], p);
    } else {
        lemma_small_mod(0, prime() as nat);
    }
}

/// Convolution with a negative index is zero.
pub proof fn lemma_conv_negative(a: Seq<int>, b: Seq<int>, k: int, n: nat)
    requires
        k < 0,
    ensures
        conv(a, b, k, n) == 0,
    decreases n,
{
    if n > 0 {
        lemma_conv_negative(a, b, k, (n - 1) as nat);
        assert(coeff(b, k - (n - 1)) == 0);
        assert(coeff(a, n - 1) * coeff(b, k - (n - 1)) == 0);
    }
}

/// Splitting off the lowest coefficient of `a` in a convolution.
pub proof fn lemma_conv_split(a: Seq<int>, b: Seq<int>, k: int, n: nat)
    requires
        a.len() > 0,
    ensures
        conv(a, b, k, n + 1) == a[0] * coeff(b, k) + conv(a.drop_first(), b, k - 1, n),
    decreases n,
{
    let t = a.drop_first();
    if n == 0 {
        assert(coeff(a, 0) == a[0]);
        assert(conv(a, b, k, 1) == conv(a, b, k, 0) + coeff(a, 0) * coeff(b, k - 0));
        assert(conv(t, b, k - 1, 0) == 0);
    } else {
        lemma_conv_split(a, b, k, (n - 1) as nat);
        assert(coeff(a, n as int) == coeff(t, n - 1));
        assert(conv(a, b, k, n + 1) == conv(a, b, k, n) + coeff(a, n as int) * coeff(b, k - n));
        assert(conv(t, b, k - 1, n) == conv(t, b, k - 1, (n - 1) as nat) + coeff(t, n - 1) * coeff(b, (k - 1) - (n - 1)));
        assert(k - n == (k - 1) - (n - 1));
    }
}

/// The product of two `hsum`s is the `hsum` of their convolution.
pub proof fn lemma_hsum_conv(a: Seq<int>, b: Seq<int>, x: int, n: nat)
    requires
        n + 1 >= a.len() + b.len(),
    ensures
        hsum(|k: int| conv(a, b, k, a.len()), x, n) == hsum(coeff_fn(a), x, a.len()) * hsum(coeff_fn(b), x, b.len()),
    decreases a.len(),
{
    let u = |k: int| conv(a, b, k, a.len());
    let hb = hsum(coeff_fn(b), x, b.len());
    if a.len() == 0 {
        assert forall|i: int| 0 <= i < n implies #[trigger] u(i) == 0 by {}
        lemma_hsum_zero_tail(u, x, 0, n);
        assert(0 * hb == 0);
    } else if b.len() == 0 {
        assert forall|i: int| 0 <= i < n implies #[trigger] u(i) == 0 by {
            lemma_conv_beyond(a, b, i, a.len());
        }
        lemma_hsum_zero_tail(u, x, 0, n);
        let ha = hsum(coeff_fn(a), x, a.len());
        assert(ha * 0 == 0);
    } else {
        let t = a.drop_first();
        let a0 = a[0];
        let w = |k: int| conv(t, b, k - 1, t.len());
        let bf = coeff_fn(b);
        let sb = |k: int| a0 * bf(k);
        let sum = |k: int| sb(k) + w(k);
        assert forall|k: int| 0 <= k < n implies #[trigger] u(k) == sum(k) by {
            lemma_conv_split(a, b, k, t.len());
        }
        lemma_hsum_ext(u, sum, x, n);
        lemma_hsum_add(sb, w, x, n);
        lemma_hsum_scale(bf, a0, x, n);
        assert forall|i: int| b.len() <= i < n implies #[trigger] bf(i) == 0 by {}
        lemma_hsum_zero_tail(bf, x, b.len(), n);
        let w1 = |i: int| w(i + 1);
        let v = |k: int| conv(t, b, k, t.len());
        assert forall|i: int| 0 <= i < n - 1 implies #[trigger] w1(i) == v(i) by {}
        lemma_hsum_ext(w1, v, x, (n - 1) as nat);
        lemma_conv_negative(t, b, -1, t.len());
        lemma_hsum_conv(t, b, x, (n - 1) as nat);
        let ht = hsum(coeff_fn(t), x, t.len());
        let af = coeff_fn(a);
        let af1 = |i: int| af(i + 1);
        assert forall|i: int| 0 <= i < t.len() implies #[trigger] af1(i) == coeff_fn(t)(i) by {}
        lemma_hsum_ext(af1, coeff_fn(t), x, t.len());
        assert(af(0) == a0);
        lemma_mul_is_associative(x, ht, hb);
        lemma_mul_is_distributive_add_other_way(hb, a0, x * ht);
    }
}

/// Evaluating a product is multiplying the evaluations:
/// `(f * g)(x) = f(x) * g(x)` for every `x`.
pub proof fn law_mul_evaluates_to_product(f: Seq<int>, g: Seq<int>, x: int)
    ensures
        horner(poly_mul(f, g), x) == (horner(f, x) * horner(g, x)) % prime(),
{
    let p = prime();
    let m = poly_mul(f, g);
    lemma_horner_hsum(f, x);
    lemma_horner_hsum(g, x);
    lemma_horner_hsum(m, x);
    let hf = hsum(coeff_fn(f), x, f.len());
    let hg = hsum(coeff_fn(g), x, g.len());
    if f.len() == 0 || g.len() == 0 {
        assert(m.len() == 0);
        if f.len() == 0 {
            assert(0 * horner(g, x) == 0);
        } else {
            assert(horner(f, x) * 0 == 0);
        }
        lemma_small_mod(0, p as nat);
    } else {
        lemma_mul_coeff(f, g);
        let n = (f.len() + g.len() - 1) as nat;
        crate::poly_spec::lemma_trim_coeff(crate::poly_spec::mul_raw(f, g));
        assert(m.len() <= n);
        let mf = coeff_fn(m);
        assert forall|i: int| m.len() <= i < n implies #[trigger] mf(i) == 0 by {}
        lemma_hsum_zero_tail(mf, x, m.len(), n);
        let u = |k: int| conv(f, g, k, f.len());
        let ur = |k: int| u(k) % p;
        assert forall|i: int| 0 <= i < n implies #[trigger] mf(i) == ur(i) by {
            assert(coeff(m, i) == mul_coeff(f, g, i));
        }
        lemma_hsum_ext(mf, ur, x, n);
        lemma_hsum_mod(u, x, n);
        lemma_hsum_conv(f, g, x, n);
        lemma_mul_mod_noop(hf, hg, p);
    }
}

} // verus!
