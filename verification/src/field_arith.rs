//! Arithmetic in the Goldilocks prime field `p = 2^64 - 2^32 + 1`.
//!
//! A field element is held as its canonical representative in `[0, p)`.
//! Addition, subtraction, negation and multiplication are computed here and
//! proved against their one-line modular statements; inversion and the
//! two-adic generators come from `p3-goldilocks`.
use vstd::prelude::*;
use vstd::arithmetic::div_mod::*;
use vstd::arithmetic::mul::*;

use crate::goldilocks_calls::{goldilocks_try_inverse, goldilocks_two_adic_generator, two_adic_generator_value};

verus! {

/// The Goldilocks prime, `p = 2^64 - 2^32 + 1`.
pub const GOLDILOCKS_PRIME: u64 = 0xFFFF_FFFF_0000_0001u64;

/// Two-adicity of the multiplicative group: `2^32` divides `p - 1`.
pub const TWO_ADICITY: usize = 32usize;

/// The prime as a mathematical integer.
pub open spec fn prime() -> int {
    GOLDILOCKS_PRIME as int
}

/// Squares `x` (modulo `p`) `k` times, that is `x^(2^k) mod p`.
pub open spec fn exp_pow2(x: int, k: nat) -> int
    decreases k,
{
    if k == 0 {
        x % prime()
    } else {
        let y = exp_pow2(x, (k - 1) as nat);
        (y * y) % prime()
    }
}

/// An element of the Goldilocks field, stored canonically.
#[derive(Clone, Copy, Debug, PartialEq, Eq, Hash)]
pub struct Felt {
    value: u64,
}

impl Felt {
    /// The stored representative is always reduced.
    #[verifier::type_invariant]
    pub closed spec fn reduced(self) -> bool {
        self.value < GOLDILOCKS_PRIME
    }

    /// The value of this element, in `[0, p)`.
    pub closed spec fn val(self) -> int {
        (self.value as int) % prime()
    }

    /// Wraps a representative already known to be reduced.
    fn from_reduced(v: u64) -> (r: Felt)
        requires
            v < GOLDILOCKS_PRIME,
        ensures
            r.val() == v,
    {
        let r = Felt { value: v };
        proof {
            r.lemma_val_exact();
        }
        r
    }

    /// A reduced representative is its own value.
    proof fn lemma_val_exact(self)
        requires
            self.value < GOLDILOCKS_PRIME,
        ensures
            self.val() == self.value,
    {
        lemma_small_mod(self.value as nat, prime() as nat);
    }

    /// The additive identity.
    pub fn zero() -> (r: Felt)
        ensures
            r.val() == 0,
    {
        Felt::from_reduced(0)
    }

    /// The multiplicative identity.
    pub fn one() -> (r: Felt)
        ensures
            r.val() == 1,
    {
        Felt::from_reduced(1)
    }

    /// The element `-1`, that is `p - 1`.
    pub fn neg_one() -> (r: Felt)
        ensures
            r.val() == prime() - 1,
    {
        Felt::from_reduced(GOLDILOCKS_PRIME - 1)
    }

    /// True iff this is the zero element.
    pub fn is_zero(&self) -> (r: bool)
        ensures
            r == (self.val() == 0),
    {
        proof {
            use_type_invariant(self);
            self.lemma_val_exact();
        }
        self.value == 0
    }

    /// Equality of field elements.
    pub fn equals(&self, other: &Felt) -> (r: bool)
        ensures
            r == (self.val() == other.val()),
    {
        proof {
            use_type_invariant(self);
            use_type_invariant(other);
            self.lemma_val_exact();
            other.lemma_val_exact();
        }
        self.value == other.value
    }

    /// Field addition.
    pub fn add(self, rhs: Felt) -> (r: Felt)
        ensures
            r.val() == (self.val() + rhs.val()) % prime(),
    {
        proof {
            use_type_invariant(&self);
            use_type_invariant(&rhs);
            self.lemma_val_exact();
            rhs.lemma_val_exact();
        }
        let a = self.value;
        let b = rhs.value;
        if a >= GOLDILOCKS_PRIME - b {
            let s = a - (GOLDILOCKS_PRIME - b);
            proof {
                lemma_fundamental_div_mod_converse(a + b, prime(), 1, s as int);
            }
            Felt::from_reduced(s)
        } else {
            let s = a + b;
            proof {
                lemma_small_mod(s as nat, prime() as nat);
            }
            Felt::from_reduced(s)
        }
    }

    /// Field subtraction.
    pub fn sub(self, rhs: Felt) -> (r: Felt)
        ensures
            r.val() == (self.val() - rhs.val()) % prime(),
    {
        proof {
            use_type_invariant(&self);
            use_type_invariant(&rhs);
            self.lemma_val_exact();
            rhs.lemma_val_exact();
        }
        let a = self.value;
        let b = rhs.value;
        if a >= b {
            let s = a - b;
            proof {
                lemma_small_mod(s as nat, prime() as nat);
            }
            Felt::from_reduced(s)
        } else {
            let s = a + (GOLDILOCKS_PRIME - b);
            proof {
                lemma_fundamental_div_mod_converse(a - b, prime(), -1, s as int);
            }
            Felt::from_reduced(s)
        }
    }

    /// Field negation.
    pub fn neg(self) -> (r: Felt)
        ensures
            r.val() == (0 - self.val()) % prime(),
    {
        proof {
            use_type_invariant(&self);
            self.lemma_val_exact();
        }
        if self.value == 0 {
            Felt::from_reduced(0)
        } else {
            let s = GOLDILOCKS_PRIME - self.value;
            proof {
                lemma_fundamental_div_mod_converse(0 - self.value, prime(), -1, s as int);
            }
            Felt::from_reduced(s)
        }
    }

    /// Field multiplication.
    pub fn mul(self, rhs: Felt) -> (r: Felt)
        ensures
            r.val() == (self.val() * rhs.val()) % prime(),
    {
        proof {
            use_type_invariant(&self);
            use_type_invariant(&rhs);
            self.lemma_val_exact();
            rhs.lemma_val_exact();
            lemma_mul_upper_bound(self.value as int, u64::MAX as int, rhs.value as int, u64::MAX as int);
            lemma_mul_nonnegative(self.value as int, rhs.value as int);
        }
        let wide: u128 = (self.value as u128) * (rhs.value as u128);
        let red: u128 = wide % (GOLDILOCKS_PRIME as u128);
        proof {
            lemma_mod_bound(wide as int, prime());
        }
        Felt::from_reduced(red as u64)
    }

    /// Squares this element `k` times: `self^(2^k)`.
    pub fn exp_power_of_2(self, k: usize) -> (r: Felt)
        ensures
            r.val() == exp_pow2(self.val(), k as nat),
    {
        proof {
            use_type_invariant(&self);
            self.lemma_val_exact();
            lemma_small_mod(self.value as nat, prime() as nat);
        }
        let mut acc = self;
        let mut i: usize = 0;
        while i < k
            invariant
                i <= k,
                acc.val() == exp_pow2(self.val(), i as nat),
            decreases k - i,
        {
            acc = acc.mul(acc);
            i = i + 1;
        }
        acc
    }
}

/// Every field element's value lies in `[0, p)`.
pub broadcast proof fn lemma_val_bound(x: Felt)
    ensures
        0 <= #[trigger] x.val() < prime(),
{
    lemma_mod_bound(x.value as int, prime());
}

/// Subtraction is addition of the negation, and `a - a = 0`.
pub proof fn law_sub_is_add_neg(a: Felt, b: Felt)
    ensures
        (a.val() - b.val()) % prime() == (a.val() + (0 - b.val()) % prime()) % prime(),
        (a.val() - a.val()) % prime() == 0,
{
    lemma_add_mod_noop_right(a.val(), 0 - b.val(), prime());
    lemma_small_mod(0, prime() as nat);
}

/// The field element `v mod p`.
pub fn from_u64(v: u64) -> (r: Felt)
    ensures
        r.val() == (v as int) % prime(),
{
    if v >= GOLDILOCKS_PRIME {
        let s = v - GOLDILOCKS_PRIME;
        proof {
            lemma_fundamental_div_mod_converse(v as int, prime(), 1, s as int);
        }
        Felt::from_reduced(s)
    } else {
        proof {
            lemma_small_mod(v as nat, prime() as nat);
        }
        Felt::from_reduced(v)
    }
}

/// The canonical `u64` representative, in `[0, p)`.
pub fn to_canonical_u64(x: Felt) -> (r: u64)
    ensures
        r == x.val(),
        r < GOLDILOCKS_PRIME,
{
    proof {
        use_type_invariant(&x);
        x.lemma_val_exact();
    }
    x.value
}

/// The multiplicative inverse, or `None` exactly when `x` is zero.
pub fn try_inverse(x: Felt) -> (r: Option<Felt>)
    ensures
        r is None <==> x.val() == 0,
        r matches Some(y) ==> (x.val() * y.val()) % prime() == 1,
{
    proof {
        use_type_invariant(&x);
        x.lemma_val_exact();
    }
    match goldilocks_try_inverse(x.value) {
        Some(y) => Some(Felt::from_reduced(y)),
        None => None,
    }
}

/// The generator of the multiplicative subgroup of order `2^bits`.
/// Its `2^bits`-th power is one and, for `bits > 0`, its `2^(bits-1)`-th
/// power is `-1`, so its order is exactly `2^bits`.
pub fn two_adic_generator(bits: usize) -> (r: Felt)
    requires
        bits <= TWO_ADICITY,
    ensures
        r.val() == two_adic_generator_value(bits as nat),
        exp_pow2(r.val(), bits as nat) == 1,
        bits > 0 ==> exp_pow2(r.val(), (bits - 1) as nat) == prime() - 1,
{
    let g = goldilocks_two_adic_generator(bits);
    Felt::from_reduced(g)
}

} // verus!
