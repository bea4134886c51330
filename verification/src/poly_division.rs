//! Uniqueness of polynomial division. The quotient and remainder that
//! `DensePoly::divmod` promises (`f = q * g + r` with `r` shorter than `g`)
//! are the only ones, so dividing a product by one of its factors gives back
//! the other factor with a zero remainder.
use vstd::prelude::*;
use vstd::arithmetic::div_mod::*;
use vstd::arithmetic::mul::*;

use crate::field_arith::prime;
use crate::poly_spec::{
    canonical, coeff, conv, lemma_add_coeff, lemma_canonical_ext, lemma_conv_coeff_eq, lemma_conv_extend,
    lemma_mul_coeff, poly_add, poly_mul,
};

verus! {

/// The difference of two convolutions is the convolution of the
/// coefficient-wise difference.
proof fn lemma_conv_diff(a: Seq<int>, a2: Seq<int>, d: Seq<int>, b: Seq<int>, k: int, n: nat)
    requires
        forall|i: int| 0 <= i < n ==> #[trigger] coeff(d, i) == coeff(a, i) - coeff(a2, i),
    ensures
        conv(a, b, k, n) - conv(a2, b, k, n) == conv(d, b, k, n),
    decreases n,
{
    if n > 0 {
        lemma_conv_diff(a, a2, d, b, k, (n - 1) as nat);
        let i = n - 1;
        assert(coeff(d, i) == coeff(a, i) - coeff(a2, i));
        lemma_mul_is_distributive_sub_other_way(coeff(b, k - i), coeff(a, i), coeff(a2, i));
    }
}

/// The largest index below `n` where `d` has a nonzero coefficient, or `-1`.
spec fn top_nonzero(d: Seq<int>, n: nat) -> int
    decreases n,
{
    if n == 0 {
        -1
    } else if coeff(d, n - 1) != 0 {
        n - 1
    } else {
        top_nonzero(d, (n - 1) as nat)
    }
}

proof fn lemma_top_nonzero(d: Seq<int>, n: nat)
    ensures
        -1 <= top_nonzero(d, n) < n,
        top_nonzero(d, n) >= 0 ==> coeff(d, top_nonzero(d, n)) != 0,
        forall|i: int| top_nonzero(d, n) < i < n ==> #[trigger] coeff(d, i) == 0,
    decreases n,
{
    if n > 0 {
        lemma_top_nonzero(d, (n - 1) as nat);
    }
}

/// The first `n <= m` terms of the convolution at `m + t` vanish when `g`
/// is zero above index `t`.
proof fn lemma_conv_low(d: Seq<int>, g: Seq<int>, m: int, t: int, n: nat)
    requires
        n <= m,
        0 <= t,
        forall|j: int| j > t ==> #[trigger] coeff(g, j) == 0,
    ensures
        conv(d, g, m + t, n) == 0,
    decreases n,
{
    if n > 0 {
        lemma_conv_low(d, g, m, t, (n - 1) as nat);
        assert(coeff(g, m + t - (n - 1)) == 0);
        lemma_mul_by_zero_is_zero(coeff(d, n - 1));
    }
}

/// With `d` zero above index `m` and `g` zero above index `t`, the
/// convolution at `m + t` is the single term `d_m * g_t`.
proof fn lemma_conv_top(d: Seq<int>, g: Seq<int>, m: int, t: int, n: nat)
    requires
        0 <= m < n,
        0 <= t,
        forall|i: int| m < i < n ==> #[trigger] coeff(d, i) == 0,
        forall|j: int| j > t ==> #[trigger] coeff(g, j) == 0,
    ensures
        conv(d, g, m + t, n) == coeff(d, m) * coeff(g, t),
    decreases n,
{
    if n - 1 > m {
        lemma_conv_top(d, g, m, t, (n - 1) as nat);
        assert(coeff(d, n - 1) == 0);
        lemma_mul_by_zero_is_zero(coeff(g, m + t - (n - 1)));
    } else {
        lemma_conv_low(d, g, m, t, m as nat);
    }
}

/// A multiple of `p` strictly between `-p` and `p` is zero.
proof fn lemma_mod_zero_small(x: int)
    requires
        -prime() < x < prime(),
        x % prime() == 0,
    ensures
        x == 0,
{
    let p = prime();
    lemma_fundamental_div_mod(x, p);
    if x / p >= 1 {
        lemma_mul_inequality(1, x / p, p);
    } else if x / p <= -1 {
        lemma_mul_inequality(x / p, -1, p);
    }
}

/// Dividing a product by one of its factors gives back the other factor,
/// with a zero remainder. Stated for any quotient `q` and remainder `r` that
/// meet the contract of `DensePoly::divmod` on the dividend `f * g` and the
/// nonzero divisor `g`: they are `f` and zero. The proof cancels `g`'s
/// leading coefficient through its inverse `inv`, which every nonzero
/// element of the field has: `DensePoly::leading_coefficient_inverse`
/// produces it for any nonzero divisor.
pub proof fn law_divmod_of_product(f: Seq<int>, g: Seq<int>, inv: int, q: Seq<int>, r: Seq<int>)
    requires
        canonical(f),
        canonical(g),
        g.len() > 0,
        (g.last() * inv) % prime() == 1,
        canonical(q),
        canonical(r),
        poly_add(poly_mul(q, g), r) == poly_mul(f, g),
        r.len() < g.len(),
    ensures
        q == f,
        r == Seq::<int>::empty(),
{
    let p = prime();
    let n: nat = if q.len() >= f.len() { q.len() } else { f.len() };
    let t = g.len() - 1;
    let d = Seq::new(n, |i: int| coeff(q, i) - coeff(f, i));
    lemma_add_coeff(poly_mul(q, g), r);
    lemma_mul_coeff(q, g);
    lemma_mul_coeff(f, g);
    assert forall|i: int| 0 <= i < n implies #[trigger] coeff(d, i) == coeff(q, i) - coeff(f, i) by {}
    // Coefficient by coefficient, `(q - f) * g + r` vanishes modulo `p`.
    assert forall|k: int| 0 <= k implies #[trigger] ((conv(d, g, k, n) + coeff(r, k)) % p) == 0 by {
        lemma_conv_extend(q, g, k, n);
        lemma_conv_extend(f, g, k, n);
        lemma_conv_diff(q, f, d, g, k, n);
        let a = conv(q, g, k, n);
        let b = conv(f, g, k, n);
        let c = coeff(r, k);
        assert(0 <= c < p);
        assert(coeff(poly_add(poly_mul(q, g), r), k) == coeff(poly_mul(f, g), k));
        assert(coeff(poly_add(poly_mul(q, g), r), k) == (coeff(poly_mul(q, g), k) + c) % p);
        assert(coeff(poly_mul(q, g), k) == conv(q, g, k, q.len()) % p);
        assert(coeff(poly_mul(f, g), k) == conv(f, g, k, f.len()) % p);
        assert((a % p + c) % p == b % p);
        lemma_add_mod_noop_right(c, a, p);
        assert((a + c) % p == b % p);
        lemma_sub_mod_noop(a + c, b, p);
        assert((b % p - b % p) == 0);
        lemma_small_mod(0, p as nat);
        assert(a + c - b == conv(d, g, k, n) + c);
    }
    // The top nonzero coefficient of `q - f` would survive in the product.
    lemma_top_nonzero(d, n);
    let m = top_nonzero(d, n);
    if m >= 0 {
        assert forall|j: int| j > t implies #[trigger] coeff(g, j) == 0 by {}
        lemma_conv_top(d, g, m, t, n);
        let dm = coeff(d, m);
        let gt = coeff(g, t);
        assert(coeff(r, m + t) == 0);
        assert((dm * gt + 0) % p == 0);
        assert(gt == g.last());
        lemma_mul_mod_noop_left(dm * gt, inv, p);
        assert((dm * gt) * inv % p == 0) by {
            lemma_small_mod(0, p as nat);
        }
        lemma_mul_is_associative(dm, gt, inv);
        lemma_mul_mod_noop_right(dm, gt * inv, p);
        assert(dm * 1 == dm);
        assert(dm % p == 0);
        assert(-p < dm < p);
        lemma_mod_zero_small(dm);
        assert(false);
    }
    assert forall|i: int| 0 <= i implies #[trigger] coeff(q, i) == coeff(f, i) by {
        if i < n {
            assert(coeff(d, i) == 0);
        }
    }
    lemma_canonical_ext(q, f);
    // With `q = f`, the remainder vanishes coefficient by coefficient.
    assert forall|k: int| 0 <= k implies #[trigger] coeff(r, k) == 0 by {
        assert forall|i: int| 0 <= i implies #[trigger] coeff(d, i) == coeff(Seq::<int>::empty(), i) by {
            if i < n {
                assert(coeff(d, i) == coeff(q, i) - coeff(f, i));
            }
        }
        lemma_conv_coeff_eq(d, Seq::<int>::empty(), g, k, n);
        lemma_conv_extend(Seq::<int>::empty(), g, k, n);
        assert((0 + coeff(r, k)) % p == 0);
        if 0 <= k < r.len() {
            lemma_small_mod(coeff(r, k) as nat, p as nat);
        }
    }
    if r.len() > 0 {
        assert(coeff(r, r.len() - 1) == 0);
    }
    assert(r =~= Seq::<int>::empty());
}

} // verus!
