use plonky3_experiments::air::{generate_fibonacci_trace, FibonacciAir, TraceMatrix, NUM_FIBONACCI_COLS};
use plonky3_experiments::field_arith::{from_u64, Felt};

#[test]
fn trace_starts_at_initial_pair() {
    let trace = generate_fibonacci_trace(0, 1, 8);
    assert_eq!(trace.values[0], Felt::zero());
    assert_eq!(trace.values[1], Felt::one());
}

#[test]
fn last_row_right_is_eighth_fibonacci() {
    // F_8 = 21 with F_0 = 0, F_1 = 1.
    let trace = generate_fibonacci_trace(0, 1, 8);
    let last_right = trace.values[trace.values.len() - 1];
    assert_eq!(last_right, from_u64(21));
}

#[test]
fn trace_has_two_columns_and_n_rows() {
    let trace = generate_fibonacci_trace(2, 3, 4);
    assert_eq!(trace.width, NUM_FIBONACCI_COLS);
    let expected: Vec<Felt> = [2u64, 3, 3, 5, 5, 8, 8, 13].iter().copied().map(from_u64).collect();
    assert_eq!(trace.values, expected);
}

#[test]
fn air_shape() {
    let air = FibonacciAir;
    assert_eq!(air.width(), 2);
    assert_eq!(air.num_public_values(), 3);
    assert_eq!(air.max_constraint_degree(), Some(2));
}

#[test]
fn honest_trace_satisfies_the_constraints() {
    let trace = generate_fibonacci_trace(0, 1, 8);
    let pis = vec![Felt::zero(), Felt::one(), from_u64(21)];
    assert!(FibonacciAir.eval(&trace, &pis));
}

#[test]
fn wrong_public_input_violates_the_constraints() {
    let trace = generate_fibonacci_trace(0, 1, 8);
    let pis = vec![Felt::zero(), Felt::one(), from_u64(999)];
    assert!(!FibonacciAir.eval(&trace, &pis));
    let pis = vec![Felt::one(), Felt::one(), from_u64(21)];
    assert!(!FibonacciAir.eval(&trace, &pis));
}

#[test]
fn tampered_transition_violates_the_constraints() {
    let mut trace = generate_fibonacci_trace(0, 1, 8);
    trace.values[6] = from_u64(100);
    let pis = vec![Felt::zero(), Felt::one(), from_u64(21)];
    assert!(!FibonacciAir.eval(&trace, &pis));
}

#[test]
fn single_row_trace() {
    let trace = generate_fibonacci_trace(5, 7, 1);
    assert_eq!(trace.values, vec![from_u64(5), from_u64(7)]);
    let pis = vec![from_u64(5), from_u64(7), from_u64(7)];
    assert!(FibonacciAir.eval(&trace, &pis));
}

#[test]
fn only_the_generated_trace_satisfies_the_constraints() {
    // A hand-written trace from (2, 3): rows (2,3), (3,5), (5,8), (8,13).
    let rows: [u64; 8] = [2, 3, 3, 5, 5, 8, 8, 13];
    let trace = TraceMatrix { values: rows.iter().map(|v| from_u64(*v)).collect(), width: 2 };
    let pis = vec![from_u64(2), from_u64(3), from_u64(13)];
    assert!(FibonacciAir.eval(&trace, &pis));
    assert_eq!(trace.values, generate_fibonacci_trace(2, 3, 4).values);
    // Any other last value, or any other middle row, is rejected.
    let pis_wrong = vec![from_u64(2), from_u64(3), from_u64(14)];
    assert!(!FibonacciAir.eval(&trace, &pis_wrong));
    let mut other = TraceMatrix { values: trace.values.clone(), width: 2 };
    other.values[4] = from_u64(6);
    assert!(!FibonacciAir.eval(&other, &pis));
}
