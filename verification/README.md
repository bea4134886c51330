# plonky3-experiments

Goldilocks-field arithmetic, dense polynomials, a Fibonacci AIR and a FRI
low-degree test built on Plonky3. The library under `src/` is written in
Verus. Its own logic is proved against the contracts it states; the calls
into the Plonky3 crates and `rand` go through small trusted wrappers whose
contracts say what the outside code is relied on for, and Plonky3 values
whose types carry bounds on Plonky3 traits (the PCS, the challenger, the
FRI proof) are held in opaque structs.

## Layout

- `src/field_arith.rs` — the Goldilocks field `p = 2^64 - 2^32 + 1`:
  canonical elements (`Felt`), addition, subtraction, negation,
  multiplication, repeated squaring, inversion and two-adic generators.
- `src/goldilocks_calls.rs` — the trusted calls into `p3-goldilocks`
  (inversion, the table of two-adic generators).
- `src/poly_spec.rs` — the model of polynomials as coefficient sequences:
  canonical form, trimming, Horner evaluation, sum, difference, negation,
  scaling, convolution product, evaluations on two-adic subgroups.
- `src/poly.rs` — `DensePoly`: construction, degree, evaluation, ring
  operations, long division and subgroup evaluation, each proved against the
  model.
- `src/poly_eval.rs` — evaluation as a sum over coefficients, and the proof
  that evaluating a product multiplies the evaluations.
- `src/poly_laws.rs` — the additive laws of the polynomial operations.
- `src/poly_division.rs` — uniqueness of division: dividing a product by
  one factor gives back the other with a zero remainder.
- `src/air.rs` — the Fibonacci AIR: trace generation, the constraints
  evaluated on a concrete trace, and the proof that the generated trace
  satisfies them.
- `src/merkle.rs` — a seeded Poseidon2 Merkle MMCS from `p3-merkle-tree`
  and single-column commitments.
- `src/fri.rs` — FRI parameters, the FRI polynomial commitment scheme, the
  Fiat-Shamir challenger, and the low-degree prove / verify round trip.
- `tests/` — tests of the library.
- `app/` — the demonstration program: the symbolic `Air` implementation
  for Plonky3's constraint builders, the STARK configuration, and a run of
  the arithmetic, the STARK and the FRI round trip.
