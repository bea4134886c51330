//! Dense univariate polynomials over Goldilocks.
//!
//! Coefficient ordering: `coeffs[i]` is the coefficient of `x^i` (low to
//! high). A `DensePoly` is always canonical: it has no trailing zero
//! coefficient, so the zero polynomial has no coefficients at all.
use vstd::prelude::*;
use vstd::arithmetic::div_mod::*;
use vstd::arithmetic::mul::*;

use crate::field_arith::{lemma_val_bound, prime, try_inverse, two_adic_generator, Felt, TWO_ADICITY};
use crate::poly_spec::{
    add_raw, canonical, ceil_log2, coeff, conv, horner, is_pow2, lemma_add_coeff,
    lemma_canonical_ext, lemma_ceil_log2_unique, lemma_conv_beyond, lemma_conv_coeff_eq,
    lemma_conv_extend, lemma_conv_update, lemma_mul_coeff, lemma_neg_coeff, lemma_pow2_mono,
    lemma_pow2_props, lemma_trim_canonical, lemma_trim_coeff, lemma_vals_reduced, max_len, mul_raw,
    ntt_spec, poly_add, poly_mul, poly_neg, poly_scale, poly_sub, pow2, pow_mod, sub_raw, trim, vals,
};

verus! {

broadcast use lemma_val_bound;

/// Dense univariate polynomial over Goldilocks; canonical (no trailing zeros).
#[derive(Debug, PartialEq, Eq)]
pub struct DensePoly {
    coeffs: Vec<Felt>,
}

impl View for DensePoly {
    type V = Seq<int>;

    /// The coefficient values, low to high.
    closed spec fn view(&self) -> Seq<int> {
        vals(self.coeffs@)
    }
}

impl Clone for DensePoly {
    fn clone(&self) -> (r: Self)
        ensures
            r@ == self@,
    {
        proof {
            use_type_invariant(self);
        }
        DensePoly { coeffs: copy_coeffs(&self.coeffs) }
    }
}

/// A copy of a coefficient vector.
fn copy_coeffs(v: &Vec<Felt>) -> (r: Vec<Felt>)
    ensures
        r@ == v@,
{
    let mut r: Vec<Felt> = Vec::new();
    let mut i: usize = 0;
    while i < v.len()
        invariant
            i <= v.len(),
            r@ == v@.subrange(0, i as int),
        decreases v.len() - i,
    {
        r.push(v[i]);
        i = i + 1;
        proof {
            assert(r@ =~= v@.subrange(0, i as int));
        }
    }
    proof {
        assert(v@.subrange(0, v.len() as int) =~= v@);
    }
    r
}

/// Coefficient `i` of `xs`, or zero past its end.
fn pad_get(xs: &Vec<Felt>, i: usize) -> (r: Felt)
    ensures
        r.val() == coeff(vals(xs@), i as int),
{
    if i < xs.len() {
        xs[i]
    } else {
        Felt::zero()
    }
}

/// The top coefficient cancels in one step of long division.
proof fn lemma_cancel_lead(t: int, inv: int, lead: int)
    requires
        0 <= t < prime(),
        (lead * inv) % prime() == 1,
    ensures
        (t - ((t * inv) % prime()) * lead) % prime() == 0,
{
    let p = prime();
    lemma_mul_mod_noop_left(t * inv, lead, p);
    lemma_mul_is_associative(t, inv, lead);
    lemma_mul_is_commutative(inv, lead);
    lemma_mul_mod_noop_right(t, inv * lead, p);
    assert(t * 1 == t);
    lemma_small_mod(t as nat, p as nat);
    let x = ((t * inv) % p) * lead;
    assert(x % p == t);
    lemma_sub_mod_noop(t, x, p);
    assert(t - t == 0);
    lemma_small_mod(0, p as nat);
}

impl DensePoly {
    #[verifier::type_invariant]
    closed spec fn well_formed(self) -> bool {
        self.coeffs@.len() == 0 || vals(self.coeffs@).last() != 0
    }

    /// Every polynomial is canonical and has at most `usize::MAX`
    /// coefficients. Calling this brings both facts into a proof.
    pub fn lemma_canonical(&self)
        ensures
            canonical(self@),
            self@.len() <= usize::MAX,
    {
        proof {
            use_type_invariant(self);
            lemma_vals_reduced(self.coeffs@);
        }
        let n = self.coeffs.len();
        assert(self@.len() == n);
    }

    /// Build from coefficients (low to high). Trailing zeros are stripped so
    /// that `degree` and equality operate on a canonical representation.
    pub fn new(coeffs: Vec<Felt>) -> (r: DensePoly)
        ensures
            r@ == trim(vals(coeffs@)),
            canonical(r@),
    {
        let mut coeffs = coeffs;
        let ghost orig = vals(coeffs@);
        proof {
            lemma_trim_coeff(orig);
        }
        while coeffs.len() > 0 && coeffs[coeffs.len() - 1].is_zero()
            invariant
                trim(vals(coeffs@)) == trim(orig),
            decreases coeffs.len(),
        {
            let ghost before = vals(coeffs@);
            coeffs.pop();
            proof {
                assert(vals(coeffs@) =~= before.drop_last());
            }
        }
        proof {
            lemma_vals_reduced(coeffs@);
        }
        DensePoly { coeffs }
    }

    /// The zero polynomial.
    pub fn zero() -> (r: DensePoly)
        ensures
            r@ == Seq::<int>::empty(),
    {
        let r = DensePoly { coeffs: Vec::new() };
        proof {
            assert(r@ =~= Seq::<int>::empty());
        }
        r
    }

    /// True iff this is the zero polynomial.
    pub fn is_zero(&self) -> (r: bool)
        ensures
            r == (self@.len() == 0),
    {
        self.coeffs.len() == 0
    }

    /// Degree, or `None` for the zero polynomial.
    pub fn degree(&self) -> (r: Option<usize>)
        ensures
            r == (if self@.len() == 0 {
                None
            } else {
                Some((self@.len() - 1) as usize)
            }),
    {
        if self.coeffs.len() == 0 {
            None
        } else {
            Some(self.coeffs.len() - 1)
        }
    }

    /// The multiplicative inverse of the leading coefficient of a nonzero
    /// polynomial.
    pub fn leading_coefficient_inverse(&self) -> (r: Felt)
        requires
            self@.len() > 0,
        ensures
            (self@.last() * r.val()) % prime() == 1,
    {
        proof {
            use_type_invariant(self);
        }
        let lead = self.coeffs[self.coeffs.len() - 1];
        match try_inverse(lead) {
            Some(y) => y,
            None => {
                proof {
                    assert(lead.val() == self@.last());
                    assert(false);
                }
                Felt::zero()
            },
        }
    }

    /// Evaluate via Horner's rule.
    pub fn evaluate(&self, x: Felt) -> (r: Felt)
        ensures
            r.val() == horner(self@, x.val()),
    {
        let n = self.coeffs.len();
        let ghost s = self@;
        let mut acc = Felt::zero();
        let mut i = n;
        proof {
            assert(s.subrange(n as int, n as int) =~= Seq::<int>::empty());
        }
        while i > 0
            invariant
                i <= n,
                n == self.coeffs.len(),
                s == self@,
                acc.val() == horner(s.subrange(i as int, n as int), x.val()),
            decreases i,
        {
            i = i - 1;
            let c = self.coeffs[i];
            let prev = acc;
            acc = acc.mul(x).add(c);
            proof {
                let t = s.subrange(i as int, n as int);
                assert(t.drop_first() =~= s.subrange(i + 1, n as int));
                assert(t[0] == c.val());
                lemma_add_mod_noop(prev.val() * x.val(), c.val(), prime());
                lemma_small_mod(c.val() as nat, prime() as nat);
            }
        }
        proof {
            assert(s.subrange(0, n as int) =~= s);
        }
        acc
    }

    /// Polynomial sum.
    pub fn add(&self, rhs: &DensePoly) -> (r: DensePoly)
        ensures
            r@ == poly_add(self@, rhs@),
            canonical(r@),
    {
        let la = self.coeffs.len();
        let lb = rhs.coeffs.len();
        let n = if la >= lb { la } else { lb };
        let mut out: Vec<Felt> = Vec::new();
        let mut i: usize = 0;
        while i < n
            invariant
                i <= n,
                n == max_len(self@, rhs@),
                out@.len() == i,
                forall|j: int| 0 <= j < i ==> #[trigger] out@[j].val() == (coeff(self@, j) + coeff(rhs@, j)) % prime(),
            decreases n - i,
        {
            let c = pad_get(&self.coeffs, i).add(pad_get(&rhs.coeffs, i));
            out.push(c);
            i = i + 1;
        }
        proof {
            assert(vals(out@) =~= add_raw(self@, rhs@));
        }
        DensePoly::new(out)
    }

    /// Polynomial difference.
    pub fn sub(&self, rhs: &DensePoly) -> (r: DensePoly)
        ensures
            r@ == poly_sub(self@, rhs@),
            canonical(r@),
    {
        let la = self.coeffs.len();
        let lb = rhs.coeffs.len();
        let n = if la >= lb { la } else { lb };
        let mut out: Vec<Felt> = Vec::new();
        let mut i: usize = 0;
        while i < n
            invariant
                i <= n,
                n == max_len(self@, rhs@),
                out@.len() == i,
                forall|j: int| 0 <= j < i ==> #[trigger] out@[j].val() == (coeff(self@, j) - coeff(rhs@, j)) % prime(),
            decreases n - i,
        {
            let c = pad_get(&self.coeffs, i).sub(pad_get(&rhs.coeffs, i));
            out.push(c);
            i = i + 1;
        }
        proof {
            assert(vals(out@) =~= sub_raw(self@, rhs@));
        }
        DensePoly::new(out)
    }

    /// Polynomial negation. Negation keeps the canonical form, so the
    /// coefficients are not trimmed again.
    pub fn neg(&self) -> (r: DensePoly)
        ensures
            r@ == poly_neg(self@),
            canonical(r@),
    {
        proof {
            use_type_invariant(self);
            lemma_vals_reduced(self.coeffs@);
            lemma_neg_coeff(self@);
        }
        let n = self.coeffs.len();
        let mut out: Vec<Felt> = Vec::new();
        let mut i: usize = 0;
        while i < n
            invariant
                i <= n,
                n == self.coeffs.len(),
                out@.len() == i,
                forall|j: int| 0 <= j < i ==> #[trigger] out@[j].val() == (0 - self@[j]) % prime(),
            decreases n - i,
        {
            let c = self.coeffs[i].neg();
            out.push(c);
            i = i + 1;
        }
        proof {
            assert(vals(out@) =~= poly_neg(self@));
        }
        DensePoly { coeffs: out }
    }

    /// Every coefficient multiplied by the scalar `c`.
    pub fn mul_scalar(&self, c: Felt) -> (r: DensePoly)
        ensures
            r@ == poly_scale(self@, c.val()),
            canonical(r@),
    {
        let n = self.coeffs.len();
        let mut out: Vec<Felt> = Vec::new();
        let mut i: usize = 0;
        while i < n
            invariant
                i <= n,
                n == self.coeffs.len(),
                out@.len() == i,
                forall|j: int| 0 <= j < i ==> #[trigger] out@[j].val() == (self@[j] * c.val()) % prime(),
            decreases n - i,
        {
            let v = self.coeffs[i].mul(c);
            out.push(v);
            i = i + 1;
        }
        proof {
            assert(vals(out@) =~= Seq::new(self@.len(), |j: int| (self@[j] * c.val()) % prime()));
        }
        DensePoly::new(out)
    }

    /// Schoolbook polynomial product.
    pub fn mul(&self, rhs: &DensePoly) -> (r: DensePoly)
        requires
            self@.len() + rhs@.len() <= usize::MAX,
        ensures
            r@ == poly_mul(self@, rhs@),
            canonical(r@),
    {
        let la = self.coeffs.len();
        let lb = rhs.coeffs.len();
        if la == 0 || lb == 0 {
            let z = DensePoly::zero();
            proof {
                lemma_trim_canonical(Seq::<int>::empty());
            }
            return z;
        }
        let ghost a = self@;
        let ghost b = rhs@;
        let n = la + lb - 1;
        let mut out: Vec<Felt> = Vec::new();
        let mut t: usize = 0;
        while t < n
            invariant
                t <= n,
                out@.len() == t,
                forall|k: int| 0 <= k < t ==> #[trigger] out@[k].val() == 0,
            decreases n - t,
        {
            out.push(Felt::zero());
            t = t + 1;
        }
        proof {
            assert forall|k: int| 0 <= k < n implies #[trigger] out@[k].val() == conv(a, b, k, 0) % prime() by {
                lemma_small_mod(0, prime() as nat);
            }
        }
        let mut i: usize = 0;
        while i < la
            invariant
                i <= la,
                la == self.coeffs.len(),
                lb == rhs.coeffs.len(),
                n == la + lb - 1,
                a == self@,
                b == rhs@,
                out@.len() == n,
                forall|k: int| 0 <= k < n ==> #[trigger] out@[k].val() == conv(a, b, k, i as nat) % prime(),
            decreases la - i,
        {
            let ai = self.coeffs[i];
            let mut j: usize = 0;
            while j < lb
                invariant
                    i < la,
                    j <= lb,
                    la == self.coeffs.len(),
                    lb == rhs.coeffs.len(),
                    n == la + lb - 1,
                    a == self@,
                    b == rhs@,
                    ai.val() == a[i as int],
                    out@.len() == n,
                    forall|k: int|
                        0 <= k < n ==> #[trigger] out@[k].val() == (conv(a, b, k, i as nat) + (if i <= k < i + j {
                            a[i as int] * b[k - i]
                        } else {
                            0
                        })) % prime(),
                decreases lb - j,
            {
                let idx = i + j;
                let bj = rhs.coeffs[j];
                let term = ai.mul(bj);
                let cur = out[idx];
                let ghost before = out@;
                out.set(idx, cur.add(term));
                proof {
                    let k = idx as int;
                    let base = conv(a, b, k, i as nat);
                    assert(b[k - i] == bj.val());
                    lemma_add_mod_noop(base, ai.val() * bj.val(), prime());
                    lemma_add_mod_noop(cur.val(), ai.val() * bj.val(), prime());
                    lemma_mod_twice(base, prime());
                    assert forall|m: int| 0 <= m < n implies #[trigger] out@[m].val() == (conv(a, b, m, i as nat) + (if i <= m < i + j + 1 {
                            a[i as int] * b[m - i]
                        } else {
                            0
                        })) % prime() by {
                        if m != k {
                            assert(out@[m] == before[m]);
                        }
                    }
                }
                j = j + 1;
            }
            proof {
                assert forall|k: int| 0 <= k < n implies #[trigger] out@[k].val() == conv(a, b, k, (i + 1) as nat) % prime() by {
                    assert(coeff(a, i as int) == a[i as int]);
                    if i <= k < i + lb {
                        assert(coeff(b, k - i) == b[k - i]);
                    } else {
                        assert(coeff(b, k - i) == 0);
                        assert(coeff(a, i as int) * coeff(b, k - i) == 0);
                    }
                }
            }
            i = i + 1;
        }
        proof {
            assert(vals(out@) =~= mul_raw(a, b));
        }
        DensePoly::new(out)
    }

    /// Polynomial long division: returns `(quotient, remainder)` with
    /// `self = quotient * divisor + remainder` and
    /// `degree(remainder) < degree(divisor)`. The divisor must be nonzero.
    pub fn divmod(&self, divisor: &DensePoly) -> (res: (DensePoly, DensePoly))
        requires
            divisor@.len() > 0,
        ensures
            poly_add(poly_mul(res.0@, divisor@), res.1@) == self@,
            res.1@.len() < divisor@.len(),
            canonical(res.0@),
            canonical(res.1@),
            self@.len() < divisor@.len() ==> res.0@.len() == 0 && res.1@ == self@,
    {
        proof {
            use_type_invariant(self);
            use_type_invariant(divisor);
            lemma_vals_reduced(self.coeffs@);
            lemma_vals_reduced(divisor.coeffs@);
        }
        let ghost f = self@;
        let ghost g = divisor@;
        let la = self.coeffs.len();
        let lb = divisor.coeffs.len();
        if la < lb {
            let q = DensePoly::zero();
            let r = self.clone();
            proof {
                let e = Seq::<int>::empty();
                lemma_trim_canonical(e);
                assert(poly_mul(e, g) == e);
                lemma_add_coeff(e, f);
                assert forall|k: int| 0 <= k implies #[trigger] coeff(poly_add(e, f), k) == coeff(f, k) by {
                    lemma_small_mod(coeff(f, k) as nat, prime() as nat);
                }
                lemma_canonical_ext(poly_add(e, f), f);
            }
            return (q, r);
        }
        let dd = lb - 1;
        let lead = divisor.coeffs[dd];
        let lead_inv = match try_inverse(lead) {
            Some(y) => y,
            None => {
                proof {
                    assert(lead.val() == g[dd as int]);
                    assert(false);
                }
                Felt::zero()
            },
        };
        proof {
            lemma_mul_is_commutative(lead.val(), lead_inv.val());
        }
        let mut rem = copy_coeffs(&self.coeffs);
        let nq = la - dd;
        let mut quot: Vec<Felt> = Vec::new();
        let mut t: usize = 0;
        while t < nq
            invariant
                t <= nq,
                quot@.len() == t,
                forall|j: int| 0 <= j < t ==> #[trigger] quot@[j].val() == 0,
            decreases nq - t,
        {
            quot.push(Felt::zero());
            t = t + 1;
        }
        proof {
            let e = Seq::<int>::empty();
            assert forall|k: int| 0 <= k < la implies (conv(vals(quot@), g, k, nq as nat) + coeff(vals(rem@), k)) % prime() == f[k] by {
                assert forall|i: int| 0 <= i implies #[trigger] coeff(vals(quot@), i) == coeff(e, i) by {
                    if i < nq {
                        assert(vals(quot@)[i] == quot@[i].val());
                    }
                }
                lemma_conv_coeff_eq(vals(quot@), e, g, k, nq as nat);
                lemma_conv_extend(e, g, k, nq as nat);
                lemma_small_mod(f[k] as nat, prime() as nat);
            }
        }
        while rem.len() > dd
            invariant
                la == self.coeffs.len(),
                lb == divisor.coeffs.len(),
                dd == lb - 1,
                nq == la - dd,
                f == self@,
                g == divisor@,
                canonical(f),
                canonical(g),
                f.len() == la,
                g.len() == lb,
                (g[dd as int] * lead_inv.val()) % prime() == 1,
                quot@.len() == nq,
                rem@.len() <= la,
                forall|idx: int| 0 <= idx < nq && idx + dd < rem@.len() ==> #[trigger] quot@[idx].val() == 0,
                forall|k: int|
                    0 <= k < la ==> (conv(vals(quot@), g, k, nq as nat) + #[trigger] coeff(vals(rem@), k)) % prime() == f[k],
            decreases rem.len(),
        {
            let len = rem.len();
            let top = rem[len - 1];
            let factor = top.mul(lead_inv);
            let q_idx = len - 1 - dd;
            let ghost q_old = vals(quot@);
            let ghost r_old = vals(rem@);
            proof {
                assert(q_old[q_idx as int] == quot@[q_idx as int].val());
            }
            quot.set(q_idx, factor);
            proof {
                assert(vals(quot@) =~= q_old.update(q_idx as int, factor.val()));
                assert forall|k: int| #[trigger] conv(vals(quot@), g, k, nq as nat) == conv(q_old, g, k, nq as nat) + factor.val() * coeff(g, k - q_idx) by {
                    lemma_conv_update(q_old, g, k, nq as nat, q_idx as int, factor.val());
                }
            }
            let mut i: usize = 0;
            while i < lb
                invariant
                    i <= lb,
                    lb == divisor.coeffs.len(),
                    g == divisor@,
                    rem@.len() == len,
                    q_idx + lb == len,
                    r_old.len() == len,
                    forall|m: int|
                        0 <= m < len ==> #[trigger] vals(rem@)[m] == (if q_idx <= m < q_idx + i {
                            (r_old[m] - factor.val() * g[m - q_idx]) % prime()
                        } else {
                            r_old[m]
                        }),
                decreases lb - i,
            {
                let m = q_idx + i;
                let cur = rem[m];
                let d = divisor.coeffs[i];
                let ghost before = vals(rem@);
                proof {
                    assert(vals(rem@)[m as int] == rem@[m as int].val());
                    assert(cur.val() == r_old[m as int]);
                    assert(d.val() == g[i as int]);
                }
                rem.set(m, cur.sub(factor.mul(d)));
                proof {
                    lemma_sub_mod_noop_right(cur.val(), factor.val() * d.val(), prime());
                    assert forall|mm: int| 0 <= mm < len implies #[trigger] vals(rem@)[mm] == (if q_idx <= mm < q_idx + i + 1 {
                            (r_old[mm] - factor.val() * g[mm - q_idx]) % prime()
                        } else {
                            r_old[mm]
                        }) by {
                        if mm != m {
                            assert(vals(rem@)[mm] == before[mm]);
                        }
                    }
                }
                i = i + 1;
            }
            let ghost r_mid = vals(rem@);
            proof {
                assert(r_old[len - 1] == top.val());
                assert(g[dd as int] == g[(len - 1) - q_idx]);
                lemma_cancel_lead(top.val(), lead_inv.val(), g[dd as int]);
                assert(r_mid[len - 1] == 0);
            }
            while rem.len() > 0 && rem[rem.len() - 1].is_zero()
                invariant
                    rem@.len() <= len,
                    r_mid.len() == len,
                    vals(rem@) == r_mid.subrange(0, rem@.len() as int),
                    forall|j: int| rem@.len() <= j < len ==> #[trigger] r_mid[j] == 0,
                decreases rem.len(),
            {
                let ghost before = vals(rem@);
                proof {
                    let l = rem@.len() - 1;
                    assert(before[l] == rem@[l].val());
                    assert(before[l] == r_mid[l]);
                }
                rem.pop();
                proof {
                    assert(vals(rem@) =~= r_mid.subrange(0, rem@.len() as int));
                }
            }
            proof {
                assert(rem@.len() < len) by {
                    if rem@.len() == len {
                        assert(vals(rem@)[len - 1] == r_mid[len - 1]);
                    }
                }
                assert forall|k: int| 0 <= k < la implies (conv(vals(quot@), g, k, nq as nat) + #[trigger] coeff(vals(rem@), k)) % prime() == f[k] by {
                    let cv = conv(q_old, g, k, nq as nat);
                    let fg = factor.val() * coeff(g, k - q_idx);
                    assert(coeff(vals(rem@), k) == coeff(r_mid, k));
                    assert(coeff(r_mid, k) == (coeff(r_old, k) - fg) % prime()) by {
                        if q_idx <= k < len {
                            assert(coeff(g, k - q_idx) == g[k - q_idx]);
                        } else {
                            assert(coeff(g, k - q_idx) == 0);
                            assert(fg == 0);
                            if k < len {
                                lemma_small_mod(r_old[k] as nat, prime() as nat);
                            } else {
                                lemma_small_mod(0, prime() as nat);
                            }
                        }
                    }
                    lemma_add_mod_noop_right(cv + fg, coeff(r_old, k) - fg, prime());
                }
                assert forall|idx: int| 0 <= idx < nq && idx + dd < rem@.len() implies #[trigger] quot@[idx].val() == 0 by {
                    assert(quot@[idx].val() == vals(quot@)[idx]);
                    assert(q_old[idx] == quot@[idx].val());
                }
            }
        }
        let ghost qv = vals(quot@);
        let ghost rv = vals(rem@);
        let q = DensePoly::new(quot);
        let r = DensePoly::new(rem);
        proof {
            lemma_vals_reduced(quot@);
            lemma_vals_reduced(rem@);
            lemma_trim_coeff(qv);
            lemma_trim_coeff(rv);
            let qs = q@;
            let rs = r@;
            lemma_mul_coeff(qs, g);
            let m = poly_mul(qs, g);
            lemma_add_coeff(m, rs);
            assert forall|k: int| 0 <= k implies #[trigger] coeff(poly_add(m, rs), k) == coeff(f, k) by {
                lemma_conv_extend(qs, g, k, nq as nat);
                lemma_conv_coeff_eq(qs, qv, g, k, nq as nat);
                let c = conv(qv, g, k, nq as nat);
                assert(coeff(m, k) == c % prime());
                assert(coeff(rs, k) == coeff(rv, k));
                lemma_add_mod_noop(c, coeff(rv, k), prime());
                lemma_small_mod(coeff(rv, k) as nat, prime() as nat);
                lemma_mod_twice(c, prime());
                if k >= la {
                    lemma_conv_beyond(qv, g, k, nq as nat);
                    lemma_small_mod(0, prime() as nat);
                }
            }
            lemma_canonical_ext(poly_add(m, rs), f);
        }
        (q, r)
    }


    /// Evaluations on the natural two-adic subgroup: the subgroup of order
    /// `n`, the least power of two not below the number of coefficients,
    /// generated by `two_adic_generator(log2(n))`; entry `i` is the value at
    /// the `i`-th power of that generator.
    pub fn ntt(&self) -> (r: Vec<Felt>)
        requires
            self@.len() <= pow2(TWO_ADICITY as nat),
            self@.len() <= usize::MAX / 2,
        ensures
            vals(r@) == ntt_spec(self@),
            is_pow2(r@.len()),
            r@.len() == pow2(ceil_log2(self@.len())),
            ceil_log2(self@.len()) <= TWO_ADICITY,
    {
        let len = self.coeffs.len();
        let mut n: usize = 1;
        let mut log: usize = 0;
        while n < len
            invariant
                n == pow2(log as nat),
                len == self@.len(),
                len <= pow2(TWO_ADICITY as nat),
                len <= usize::MAX / 2,
                log == 0 || pow2((log - 1) as nat) < len,
                log <= TWO_ADICITY,
            decreases TWO_ADICITY - log,
        {
            proof {
                lemma_pow2_props(log as nat);
                if log >= TWO_ADICITY {
                    lemma_pow2_mono(TWO_ADICITY as nat, log as nat);
                }
            }
            n = n * 2;
            log = log + 1;
        }
        proof {
            lemma_pow2_props(log as nat);
            if log > TWO_ADICITY {
                lemma_pow2_mono(TWO_ADICITY as nat, (log - 1) as nat);
            }
            lemma_ceil_log2_unique(len as nat, log as nat);
        }
        let g = two_adic_generator(log);
        let mut out: Vec<Felt> = Vec::new();
        let mut x = Felt::one();
        let mut i: usize = 0;
        while i < n
            invariant
                i <= n,
                out@.len() == i,
                x.val() == pow_mod(g.val(), i as nat),
                forall|j: int| 0 <= j < i ==> #[trigger] out@[j].val() == horner(self@, pow_mod(g.val(), j as nat)),
            decreases n - i,
        {
            out.push(self.evaluate(x));
            x = x.mul(g);
            i = i + 1;
        }
        proof {
            assert(vals(out@) =~= ntt_spec(self@));
        }
        out
    }
}

} // verus!
