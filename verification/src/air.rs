//! The Fibonacci AIR: two main columns `(left, right)` with the recurrence
//! ```text
//!     left'  = right
//!     right' = left + right
//! ```
//! and three public values `[a, b, x]` constraining the boundary:
//! ```text
//!     row 0:    left == a, right == b
//!     row N-1:  right == x
//! ```
//! This module holds the trace generator and the constraints evaluated on a
//! concrete trace; the symbolic `p3_air::Air` implementation that feeds the
//! same constraints to a Plonky3 prover lives with the program around the
//! library.
use vstd::prelude::*;

use crate::field_arith::{from_u64, prime, Felt, lemma_val_bound};
use crate::poly_spec::{is_pow2, vals};

verus! {

broadcast use lemma_val_bound;

/// Number of main-trace columns used by [`FibonacciAir`].
pub const NUM_FIBONACCI_COLS: usize = 2usize;

/// Number of public values `[a, b, x]` of [`FibonacciAir`].
pub const NUM_FIBONACCI_PUBLIC_VALUES: usize = 3usize;

/// Two-column Fibonacci AIR with three public inputs `[a, b, x]`.
pub struct FibonacciAir;

/// A trace matrix stored row-major: entry `(row, col)` is `values[row * width + col]`.
pub struct TraceMatrix {
    pub values: Vec<Felt>,
    pub width: usize,
}

/// The Fibonacci sequence over the field starting from `(a, b)`:
/// `fib(0) = a`, `fib(1) = b`, `fib(i + 2) = fib(i) + fib(i + 1)`.
pub open spec fn fib(a: int, b: int, i: nat) -> int
    decreases i,
{
    if i == 0 {
        a % prime()
    } else if i == 1 {
        b % prime()
    } else {
        (fib(a, b, (i - 2) as nat) + fib(a, b, (i - 1) as nat)) % prime()
    }
}

/// The values of the `n`-row Fibonacci trace: row `i` is `(fib(i), fib(i + 1))`.
pub open spec fn fib_trace(a: int, b: int, n: nat) -> Seq<int> {
    Seq::new(2 * n, |j: int| fib(a, b, (j / 2 + j % 2) as nat))
}

/// Left column of row `i` of a two-column trace.
pub open spec fn left(v: Seq<int>, i: int) -> int {
    v[2 * i]
}

/// Right column of row `i` of a two-column trace.
pub open spec fn right(v: Seq<int>, i: int) -> int {
    v[2 * i + 1]
}

/// The transition constraints between row `i` and row `i + 1`.
pub open spec fn transition_holds(v: Seq<int>, i: int) -> bool {
    &&& left(v, i + 1) == right(v, i)
    &&& right(v, i + 1) == (left(v, i) + right(v, i)) % prime()
}

/// Every constraint of the Fibonacci AIR holds on the two-column trace
/// `v` (of at least one row) with public values `pis = [a, b, x]`.
pub open spec fn fib_air_holds(v: Seq<int>, pis: Seq<int>) -> bool {
    let h = v.len() / 2;
    &&& left(v, 0) == pis[0]
    &&& right(v, 0) == pis[1]
    &&& forall|i: int| 0 <= i < h - 1 ==> #[trigger] transition_holds(v, i)
    &&& right(v, h - 1) == pis[2]
}

impl FibonacciAir {
    /// Number of main-trace columns.
    pub fn width(&self) -> (r: usize)
        ensures
            r == NUM_FIBONACCI_COLS,
    {
        NUM_FIBONACCI_COLS
    }

    /// Number of public values.
    pub fn num_public_values(&self) -> (r: usize)
        ensures
            r == NUM_FIBONACCI_PUBLIC_VALUES,
    {
        NUM_FIBONACCI_PUBLIC_VALUES
    }

    /// The first-row, transition and last-row selectors are degree one and
    /// multiply degree-one differences, so every constraint has degree two.
    pub fn max_constraint_degree(&self) -> (r: Option<usize>)
        ensures
            r == Some(2usize),
    {
        Some(2)
    }

    /// Evaluates every constraint of the AIR on a concrete trace: the
    /// boundary constraints on the first and last rows and the transition
    /// constraints between consecutive rows. True iff all of them hold.
    pub fn eval(&self, trace: &TraceMatrix, public_values: &Vec<Felt>) -> (r: bool)
        requires
            trace.width == NUM_FIBONACCI_COLS,
            trace.values.len() >= 2,
            trace.values.len() % 2 == 0,
            public_values.len() == NUM_FIBONACCI_PUBLIC_VALUES,
        ensures
            r == fib_air_holds(vals(trace.values@), vals(public_values@)),
    {
        let v = &trace.values;
        let ghost sv = vals(v@);
        let h = v.len() / 2;
        let a = public_values[0];
        let b = public_values[1];
        let x = public_values[2];
        proof {
            assert(sv[0] == v@[0].val());
            assert(sv[1] == v@[1].val());
            assert(vals(public_values@)[0] == a.val());
            assert(vals(public_values@)[1] == b.val());
            assert(vals(public_values@)[2] == x.val());
            assert(sv[2 * (h - 1) + 1] == v@[2 * (h - 1) + 1].val());
        }
        if !v[0].equals(&a) || !v[1].equals(&b) {
            return false;
        }
        if !v[2 * (h - 1) + 1].equals(&x) {
            return false;
        }
        let mut i: usize = 0;
        while i + 1 < h
            invariant
                h == v.len() / 2,
                sv == vals(v@),
                sv == vals(trace.values@),
                v.len() >= 2,
                i + 1 <= h,
                forall|j: int| 0 <= j < i ==> #[trigger] transition_holds(sv, j),
            decreases h - i,
        {
            let l0 = v[2 * i];
            let r0 = v[2 * i + 1];
            let l1 = v[2 * i + 2];
            let r1 = v[2 * i + 3];
            proof {
                assert(sv[2 * i] == l0.val());
                assert(sv[2 * i + 1] == r0.val());
                assert(sv[2 * (i + 1)] == l1.val());
                assert(sv[2 * (i + 1) + 1] == r1.val());
            }
            if !l1.equals(&r0) || !r1.equals(&l0.add(r0)) {
                proof {
                    assert(!transition_holds(sv, i as int));
                    assert(sv.len() == v.len());
                    assert(0 <= i < sv.len() / 2 - 1);
                    assert(!fib_air_holds(sv, vals(public_values@)));
                }
                return false;
            }
            i = i + 1;
        }
        true
    }
}

/// Build the first `n` rows of the Fibonacci sequence starting from `(a, b)`
/// as a two-column trace matrix. `n` must be a power of two.
pub fn generate_fibonacci_trace(a: u64, b: u64, n: usize) -> (r: TraceMatrix)
    requires
        is_pow2(n as nat),
        n <= usize::MAX / 2,
    ensures
        r.width == NUM_FIBONACCI_COLS,
        vals(r.values@) == fib_trace(a as int, b as int, n as nat),
{
    let mut values: Vec<Felt> = Vec::new();
    let mut l = from_u64(a);
    let mut r = from_u64(b);
    let mut i: usize = 0;
    while i < n
        invariant
            i <= n,
            n <= usize::MAX / 2,
            values@.len() == 2 * i,
            l.val() == fib(a as int, b as int, i as nat),
            r.val() == fib(a as int, b as int, (i + 1) as nat),
            forall|j: int| 0 <= j < 2 * i ==> #[trigger] values@[j].val() == fib(a as int, b as int, (j / 2 + j % 2) as nat),
        decreases n - i,
    {
        values.push(l);
        values.push(r);
        let next = l.add(r);
        proof {
            assert(fib(a as int, b as int, (i + 2) as nat) == (fib(a as int, b as int, i as nat) + fib(a as int, b as int, (i + 1) as nat)) % prime());
        }
        l = r;
        r = next;
        i = i + 1;
    }
    proof {
        assert(vals(values@) =~= fib_trace(a as int, b as int, n as nat));
    }
    TraceMatrix { values, width: NUM_FIBONACCI_COLS }
}

/// The trace produced by `generate_fibonacci_trace(a, b, n)` satisfies every
/// constraint of the AIR with public values `[a, b, fib(n)]`, where `fib(n)`
/// is the right column of its last row.
pub proof fn law_fibonacci_trace_satisfies_air(a: int, b: int, n: nat)
    requires
        n >= 1,
    ensures
        fib_air_holds(fib_trace(a, b, n), seq![a % prime(), b % prime(), fib(a, b, n)]),
{
    let v = fib_trace(a, b, n);
    let pis = seq![a % prime(), b % prime(), fib(a, b, n)];
    assert(v.len() / 2 == n);
    assert(left(v, 0) == fib(a, b, 0));
    assert(right(v, 0) == fib(a, b, 1));
    assert(right(v, n - 1) == fib(a, b, ((2 * (n - 1) + 1) / 2 + (2 * (n - 1) + 1) % 2) as nat));
    assert((2 * (n - 1) + 1) / 2 + (2 * (n - 1) + 1) % 2 == n);
    assert forall|i: int| 0 <= i < n - 1 implies #[trigger] transition_holds(v, i) by {
        assert((2 * (i + 1)) / 2 + (2 * (i + 1)) % 2 == i + 1);
        assert((2 * i + 1) / 2 + (2 * i + 1) % 2 == i + 1);
        assert((2 * i) / 2 + (2 * i) % 2 == i);
        assert((2 * (i + 1) + 1) / 2 + (2 * (i + 1) + 1) % 2 == i + 2);
        assert(fib(a, b, (i + 2) as nat) == (fib(a, b, i as nat) + fib(a, b, (i + 1) as nat)) % prime());
    }
}

/// On a trace whose constraints hold, row `i` is `(fib(i), fib(i + 1))`.
proof fn lemma_rows_follow_fib(v: Seq<int>, pis: Seq<int>, i: int)
    requires
        v.len() >= 2,
        v.len() % 2 == 0,
        pis.len() == 3,
        0 <= pis[0] < prime(),
        0 <= pis[1] < prime(),
        fib_air_holds(v, pis),
        0 <= i < v.len() / 2,
    ensures
        left(v, i) == fib(pis[0], pis[1], i as nat),
        right(v, i) == fib(pis[0], pis[1], (i + 1) as nat),
    decreases i,
{
    let (a, b) = (pis[0], pis[1]);
    if i == 0 {
        vstd::arithmetic::div_mod::lemma_small_mod(a as nat, prime() as nat);
        vstd::arithmetic::div_mod::lemma_small_mod(b as nat, prime() as nat);
    } else {
        lemma_rows_follow_fib(v, pis, i - 1);
        assert(transition_holds(v, i - 1));
        assert(fib(a, b, (i + 1) as nat) == (fib(a, b, (i - 1) as nat) + fib(a, b, i as nat)) % prime());
    }
}

/// The constraints pin the trace down: a two-column trace (of at least one
/// row) on which every constraint of the AIR holds with public values
/// `[a, b, x]` (`a`, `b` canonical) is the trace that
/// `generate_fibonacci_trace(a, b, n)` produces, and `x` is `fib(n)`, the
/// right column of its last row.
pub proof fn law_air_holds_only_on_fib_trace(v: Seq<int>, pis: Seq<int>)
    requires
        v.len() >= 2,
        v.len() % 2 == 0,
        pis.len() == 3,
        0 <= pis[0] < prime(),
        0 <= pis[1] < prime(),
        fib_air_holds(v, pis),
    ensures
        v == fib_trace(pis[0], pis[1], (v.len() / 2) as nat),
        pis[2] == fib(pis[0], pis[1], (v.len() / 2) as nat),
{
    let n = v.len() / 2;
    let t = fib_trace(pis[0], pis[1], n as nat);
    assert forall|j: int| 0 <= j < v.len() implies v[j] == #[trigger] t[j] by {
        let i = j / 2;
        lemma_rows_follow_fib(v, pis, i);
        if j % 2 == 0 {
            assert(j == 2 * i);
        } else {
            assert(j == 2 * i + 1);
        }
    }
    assert(v =~= t);
    lemma_rows_follow_fib(v, pis, n - 1);
}

} // verus!
