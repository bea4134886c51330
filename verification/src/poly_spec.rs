//! The mathematical model of dense polynomials over the Goldilocks field.
//!
//! A polynomial is a sequence of coefficient values `s[i]` (the coefficient
//! of `x^i`), low to high. It is canonical when every value lies in `[0, p)`
//! and the last coefficient is nonzero, so the zero polynomial is the empty
//! sequence. Every operation is stated through the coefficient function
//! `coeff`, which reads zero past the end.
use vstd::prelude::*;
use vstd::arithmetic::div_mod::*;
use vstd::arithmetic::mul::*;

use crate::field_arith::{prime, Felt, lemma_val_bound};
use crate::goldilocks_calls::two_adic_generator_value;

verus! {

broadcast use lemma_val_bound;

/// The values of a sequence of field elements.
pub open spec fn vals(s: Seq<Felt>) -> Seq<int> {
    s.map_values(|c: Felt| c.val())
}

/// Coefficient `i`, zero outside the stored range.
pub open spec fn coeff(s: Seq<int>, i: int) -> int {
    if 0 <= i < s.len() {
        s[i]
    } else {
        0
    }
}

/// Every coefficient lies in `[0, p)`.
pub open spec fn all_reduced(s: Seq<int>) -> bool {
    forall|i: int| 0 <= i < s.len() ==> 0 <= #[trigger] s[i] < prime()
}

/// Reduced coefficients and no trailing zero.
pub open spec fn canonical(s: Seq<int>) -> bool {
    &&& all_reduced(s)
    &&& (s.len() == 0 || s.last() != 0)
}

/// `s` without its trailing zero coefficients.
pub open spec fn trim(s: Seq<int>) -> Seq<int>
    decreases s.len(),
{
    if s.len() > 0 && s.last() == 0 {
        trim(s.drop_last())
    } else {
        s
    }
}

/// Horner evaluation `s[0] + x * (s[1] + x * (...))`, reduced modulo `p`.
pub open spec fn horner(s: Seq<int>, x: int) -> int
    decreases s.len(),
{
    if s.len() == 0 {
        0
    } else {
        (horner(s.drop_first(), x) * x + s[0]) % prime()
    }
}

/// The larger of two lengths.
pub open spec fn max_len(a: Seq<int>, b: Seq<int>) -> nat {
    if a.len() >= b.len() {
        a.len()
    } else {
        b.len()
    }
}

/// Coefficient-wise sum before trimming.
pub open spec fn add_raw(a: Seq<int>, b: Seq<int>) -> Seq<int> {
    Seq::new(max_len(a, b), |i: int| (coeff(a, i) + coeff(b, i)) % prime())
}

/// Coefficient-wise difference before trimming.
pub open spec fn sub_raw(a: Seq<int>, b: Seq<int>) -> Seq<int> {
    Seq::new(max_len(a, b), |i: int| (coeff(a, i) - coeff(b, i)) % prime())
}

/// Polynomial sum.
pub open spec fn poly_add(a: Seq<int>, b: Seq<int>) -> Seq<int> {
    trim(add_raw(a, b))
}

/// Polynomial difference.
pub open spec fn poly_sub(a: Seq<int>, b: Seq<int>) -> Seq<int> {
    trim(sub_raw(a, b))
}

/// Polynomial negation.
pub open spec fn poly_neg(a: Seq<int>) -> Seq<int> {
    Seq::new(a.len(), |i: int| (0 - a[i]) % prime())
}

/// Every coefficient multiplied by the scalar `c`.
pub open spec fn poly_scale(a: Seq<int>, c: int) -> Seq<int> {
    trim(Seq::new(a.len(), |i: int| (a[i] * c) % prime()))
}

/// The first `n` terms of the convolution sum for coefficient `k`:
/// `sum_{i < n} a_i * b_(k - i)` (over the integers).
pub open spec fn conv(a: Seq<int>, b: Seq<int>, k: int, n: nat) -> int
    decreases n,
{
    if n == 0 {
        0
    } else {
        conv(a, b, k, (n - 1) as nat) + coeff(a, n - 1) * coeff(b, k - (n - 1))
    }
}

/// Coefficient `k` of the product `a * b`.
pub open spec fn mul_coeff(a: Seq<int>, b: Seq<int>, k: int) -> int {
    conv(a, b, k, a.len()) % prime()
}

/// Product coefficients before trimming.
pub open spec fn mul_raw(a: Seq<int>, b: Seq<int>) -> Seq<int> {
    Seq::new((a.len() + b.len() - 1) as nat, |k: int| mul_coeff(a, b, k))
}

/// Polynomial product.
pub open spec fn poly_mul(a: Seq<int>, b: Seq<int>) -> Seq<int> {
    if a.len() == 0 || b.len() == 0 {
        Seq::empty()
    } else {
        trim(mul_raw(a, b))
    }
}

/// `x^i` reduced modulo `p`.
pub open spec fn pow_mod(x: int, i: nat) -> int
    decreases i,
{
    if i == 0 {
        1
    } else {
        (pow_mod(x, (i - 1) as nat) * x) % prime()
    }
}

/// `2^k`.
pub open spec fn pow2(k: nat) -> nat
    decreases k,
{
    if k == 0 {
        1
    } else {
        2 * pow2((k - 1) as nat)
    }
}

/// `n` is a power of two.
pub open spec fn is_pow2(n: nat) -> bool
    decreases n,
{
    if n <= 1 {
        n == 1
    } else {
        n % 2 == 0 && is_pow2(n / 2)
    }
}

/// The base-two logarithm, rounded down (zero for `n <= 1`).
pub open spec fn log2(n: nat) -> nat
    decreases n,
{
    if n <= 1 {
        0
    } else {
        1 + log2(n / 2)
    }
}

/// Powers of two are powers of two, and `log2` inverts `pow2`.
pub proof fn lemma_pow2_props(k: nat)
    ensures
        is_pow2(pow2(k)),
        log2(pow2(k)) == k,
        pow2(k) >= 1,
    decreases k,
{
    if k > 0 {
        lemma_pow2_props((k - 1) as nat);
        assert(pow2(k) / 2 == pow2((k - 1) as nat));
    }
}

/// The base-two logarithm rounded up: the least `k` with `2^k >= n`.
pub open spec fn ceil_log2(n: nat) -> nat
    decreases n,
{
    if n <= 1 {
        0
    } else {
        1 + ceil_log2(((n + 1) / 2) as nat)
    }
}

/// The evaluations of `s` on the natural two-adic subgroup of order
/// `2^ceil_log2(len)`: entry `i` is `s` at the `i`-th power of the
/// generator `two_adic_generator(ceil_log2(len))`.
pub open spec fn ntt_spec(s: Seq<int>) -> Seq<int> {
    let k = ceil_log2(s.len());
    Seq::new(pow2(k), |i: int| horner(s, pow_mod(two_adic_generator_value(k), i as nat)))
}

/// The least `k` with `2^k >= n` is `ceil_log2(n)`.
pub proof fn lemma_ceil_log2_unique(n: nat, k: nat)
    requires
        pow2(k) >= n,
        k == 0 || pow2((k - 1) as nat) < n,
    ensures
        k == ceil_log2(n),
    decreases n,
{
    if n <= 1 {
        if k > 0 {
            lemma_pow2_props((k - 1) as nat);
        }
    } else {
        let m = ((n + 1) / 2) as nat;
        assert(k > 0);
        let j = (k - 1) as nat;
        assert(pow2(k) == 2 * pow2(j));
        if j > 0 {
            assert(pow2(j) == 2 * pow2((j - 1) as nat));
        }
        lemma_ceil_log2_unique(m, j);
    }
}

/// `pow2` is monotonic.
pub proof fn lemma_pow2_mono(j: nat, k: nat)
    requires
        j <= k,
    ensures
        pow2(j) <= pow2(k),
    decreases k,
{
    if j < k {
        lemma_pow2_mono(j, (k - 1) as nat);
    }
}

/// The values of a field-element sequence are reduced.
pub proof fn lemma_vals_reduced(s: Seq<Felt>)
    ensures
        all_reduced(vals(s)),
        vals(s).len() == s.len(),
{
    assert forall|i: int| 0 <= i < vals(s).len() implies 0 <= #[trigger] vals(s)[i] < prime() by {
        assert(vals(s)[i] == s[i].val());
    }
}

/// Trimming keeps every coefficient and only shortens.
pub proof fn lemma_trim_coeff(s: Seq<int>)
    ensures
        trim(s).len() <= s.len(),
        trim(s) == s.subrange(0, trim(s).len() as int),
        forall|i: int| #[trigger] coeff(trim(s), i) == coeff(s, i),
    decreases s.len(),
{
    if s.len() > 0 && s.last() == 0 {
        let t = s.drop_last();
        lemma_trim_coeff(t);
        assert(trim(s) == trim(t));
        assert forall|i: int| #[trigger] coeff(trim(s), i) == coeff(s, i) by {
            assert(coeff(trim(t), i) == coeff(t, i));
        }
        assert(trim(t) =~= s.subrange(0, trim(t).len() as int));
    } else {
        assert(s =~= s.subrange(0, s.len() as int));
    }
}

/// Trimming a sequence of reduced values gives a canonical polynomial.
pub proof fn lemma_trim_canonical(s: Seq<int>)
    requires
        all_reduced(s),
    ensures
        canonical(trim(s)),
    decreases s.len(),
{
    lemma_trim_coeff(s);
    if s.len() > 0 && s.last() == 0 {
        let t = s.drop_last();
        assert(all_reduced(t));
        lemma_trim_canonical(t);
    } else {
    }
}

/// Two canonical polynomials with the same coefficients are equal.
pub proof fn lemma_canonical_ext(s: Seq<int>, t: Seq<int>)
    requires
        canonical(s),
        canonical(t),
        forall|i: int| 0 <= i ==> #[trigger] coeff(s, i) == coeff(t, i),
    ensures
        s == t,
{
    if s.len() < t.len() {
        assert(coeff(s, t.len() - 1) == coeff(t, t.len() - 1));
    }
    if t.len() < s.len() {
        assert(coeff(s, s.len() - 1) == coeff(t, s.len() - 1));
    }
    assert forall|i: int| 0 <= i < s.len() implies s[i] == t[i] by {
        assert(coeff(s, i) == coeff(t, i));
    }
    assert(s =~= t);
}

/// Coefficients of a sum.
pub proof fn lemma_add_coeff(a: Seq<int>, b: Seq<int>)
    ensures
        all_reduced(add_raw(a, b)),
        canonical(poly_add(a, b)),
        forall|i: int| 0 <= i ==> #[trigger] coeff(poly_add(a, b), i) == (coeff(a, i) + coeff(b, i)) % prime(),
{
    let raw = add_raw(a, b);
    assert(all_reduced(raw));
    lemma_trim_coeff(raw);
    lemma_trim_canonical(raw);
    assert forall|i: int| 0 <= i implies #[trigger] coeff(poly_add(a, b), i) == (coeff(a, i) + coeff(b, i)) % prime() by {
        assert(coeff(trim(raw), i) == coeff(raw, i));
    }
}

/// Coefficients of a difference.
pub proof fn lemma_sub_coeff(a: Seq<int>, b: Seq<int>)
    ensures
        all_reduced(sub_raw(a, b)),
        canonical(poly_sub(a, b)),
        forall|i: int| 0 <= i ==> #[trigger] coeff(poly_sub(a, b), i) == (coeff(a, i) - coeff(b, i)) % prime(),
{
    let raw = sub_raw(a, b);
    assert(all_reduced(raw));
    lemma_trim_coeff(raw);
    lemma_trim_canonical(raw);
    assert forall|i: int| 0 <= i implies #[trigger] coeff(poly_sub(a, b), i) == (coeff(a, i) - coeff(b, i)) % prime() by {
        assert(coeff(trim(raw), i) == coeff(raw, i));
    }
}

/// Coefficients of a negation; negation keeps a polynomial canonical.
pub proof fn lemma_neg_coeff(a: Seq<int>)
    requires
        canonical(a),
    ensures
        canonical(poly_neg(a)),
        forall|i: int| 0 <= i ==> #[trigger] coeff(poly_neg(a), i) == (0 - coeff(a, i)) % prime(),
{
    let n = poly_neg(a);
    if a.len() > 0 {
        let l = a.last();
        assert(0 < l < prime());
        lemma_fundamental_div_mod_converse(0 - l, prime(), -1, prime() - l);
        assert(n.last() == (0 - l) % prime());
    }
    assert forall|i: int| 0 <= i implies #[trigger] coeff(n, i) == (0 - coeff(a, i)) % prime() by {
        if i >= a.len() {
            lemma_small_mod(0, prime() as nat);
        }
    }
}

/// Coefficients of a scalar multiple.
pub proof fn lemma_scale_coeff(a: Seq<int>, c: int)
    ensures
        canonical(poly_scale(a, c)),
        forall|i: int| 0 <= i ==> #[trigger] coeff(poly_scale(a, c), i) == (coeff(a, i) * c) % prime(),
{
    let raw = Seq::new(a.len(), |i: int| (a[i] * c) % prime());
    assert(all_reduced(raw));
    lemma_trim_coeff(raw);
    lemma_trim_canonical(raw);
    assert forall|i: int| 0 <= i implies #[trigger] coeff(poly_scale(a, c), i) == (coeff(a, i) * c) % prime() by {
        assert(coeff(trim(raw), i) == coeff(raw, i));
        if i >= a.len() {
            assert(coeff(a, i) * c == 0);
            lemma_small_mod(0, prime() as nat);
        }
    }
}

/// Extra convolution terms past the end of `a` add nothing.
pub proof fn lemma_conv_extend(a: Seq<int>, b: Seq<int>, k: int, n: nat)
    requires
        n >= a.len(),
    ensures
        conv(a, b, k, n) == conv(a, b, k, a.len()),
    decreases n,
{
    if n > a.len() {
        lemma_conv_extend(a, b, k, (n - 1) as nat);
        assert(coeff(a, n - 1) == 0);
    }
}

/// The convolution depends on `a` only through its coefficients.
pub proof fn lemma_conv_coeff_eq(a: Seq<int>, a2: Seq<int>, b: Seq<int>, k: int, n: nat)
    requires
        forall|i: int| 0 <= i ==> #[trigger] coeff(a, i) == coeff(a2, i),
    ensures
        conv(a, b, k, n) == conv(a2, b, k, n),
    decreases n,
{
    if n > 0 {
        lemma_conv_coeff_eq(a, a2, b, k, (n - 1) as nat);
        assert(coeff(a, n - 1) == coeff(a2, n - 1));
    }
}

/// Convolution coefficients vanish at and beyond index `a.len() + b.len() - 1`,
/// and everywhere when `b` is empty.
pub proof fn lemma_conv_beyond(a: Seq<int>, b: Seq<int>, k: int, n: nat)
    requires
        k >= a.len() + b.len() - 1 || b.len() == 0,
    ensures
        conv(a, b, k, n) == 0,
    decreases n,
{
    if n > 0 {
        lemma_conv_beyond(a, b, k, (n - 1) as nat);
        let i = n - 1;
        if i < a.len() {
            assert(coeff(b, k - i) == 0);
        } else {
            assert(coeff(a, i) == 0);
        }
        assert(coeff(a, i) * coeff(b, k - i) == 0);
    }
}

/// Setting a zero entry `a[idx]` to `v` adds `v * b_(k - idx)` to the convolution.
pub proof fn lemma_conv_update(a: Seq<int>, b: Seq<int>, k: int, n: nat, idx: int, v: int)
    requires
        0 <= idx < a.len(),
        idx < n,
        a[idx] == 0,
    ensures
        conv(a.update(idx, v), b, k, n) == conv(a, b, k, n) + v * coeff(b, k - idx),
    decreases n,
{
    let a2 = a.update(idx, v);
    if n - 1 == idx {
        assert(coeff(a, idx) == 0);
        assert(coeff(a2, idx) == v);
        lemma_conv_coeff_eq_below(a, a2, b, k, idx as nat);
    } else {
        lemma_conv_update(a, b, k, (n - 1) as nat, idx, v);
        assert(coeff(a2, n - 1) == coeff(a, n - 1));
    }
}

/// Convolutions agree when the first `n` coefficients agree.
pub proof fn lemma_conv_coeff_eq_below(a: Seq<int>, a2: Seq<int>, b: Seq<int>, k: int, n: nat)
    requires
        forall|i: int| 0 <= i < n ==> #[trigger] coeff(a, i) == coeff(a2, i),
    ensures
        conv(a, b, k, n) == conv(a2, b, k, n),
    decreases n,
{
    if n > 0 {
        lemma_conv_coeff_eq_below(a, a2, b, k, (n - 1) as nat);
        assert(coeff(a, n - 1) == coeff(a2, n - 1));
    }
}

/// Coefficients of a product.
pub proof fn lemma_mul_coeff(a: Seq<int>, b: Seq<int>)
    ensures
        canonical(poly_mul(a, b)),
        forall|k: int| 0 <= k ==> #[trigger] coeff(poly_mul(a, b), k) == mul_coeff(a, b, k),
{
    if a.len() == 0 || b.len() == 0 {
        assert forall|k: int| 0 <= k implies #[trigger] coeff(poly_mul(a, b), k) == mul_coeff(a, b, k) by {
            if b.len() == 0 {
                lemma_conv_beyond(a, b, k, a.len());
            }
            lemma_small_mod(0, prime() as nat);
        }
    } else {
        let raw = mul_raw(a, b);
        assert(all_reduced(raw));
        lemma_trim_coeff(raw);
        lemma_trim_canonical(raw);
        assert forall|k: int| 0 <= k implies #[trigger] coeff(poly_mul(a, b), k) == mul_coeff(a, b, k) by {
            assert(coeff(trim(raw), k) == coeff(raw, k));
            if k >= raw.len() {
                lemma_conv_beyond(a, b, k, a.len());
                lemma_small_mod(0, prime() as nat);
            }
        }
    }
}

} // verus!
