use weather_markov::solver::SolverAction::{Finish, Multiply};
use weather_markov::solver::{next_action, MAX_ITERATIONS};

#[test]
fn solver_always_multiplies_twice() {
    assert_eq!(next_action(0, false), Multiply);
    assert_eq!(next_action(0, true), Multiply);
    assert_eq!(next_action(1, false), Multiply);
    assert_eq!(next_action(1, true), Multiply);
}

#[test]
fn solver_stops_on_convergence_after_the_second_multiplication() {
    assert_eq!(next_action(2, true), Finish);
    assert_eq!(next_action(2, false), Multiply);
    assert_eq!(next_action(500, true), Finish);
    assert_eq!(next_action(999, false), Multiply);
}

#[test]
fn solver_stops_at_the_cap() {
    assert_eq!(MAX_ITERATIONS, 1000);
    assert_eq!(next_action(1000, false), Finish);
    assert_eq!(next_action(1000, true), Finish);
    assert_eq!(next_action(usize::MAX, false), Finish);
}

#[test]
fn schedule_lets_a_matrix_of_identical_rows_settle_at_once() {
    let row = [0.2_f64, 0.5, 0.3];
    let m = [row, row, row];
    let multiply = |a: &[[f64; 3]; 3]| -> [[f64; 3]; 3] {
        let mut out = [[0.0_f64; 3]; 3];
        for i in 0..3 {
            for j in 0..3 {
                out[i][j] = (0..3).map(|k| a[i][k] * m[k][j]).sum();
            }
        }
        out
    };
    let mut current = m;
    let mut multiplications: usize = 0;
    let mut converged = false;
    while next_action(multiplications, converged) == Multiply {
        let previous = current;
        current = multiply(&current);
        multiplications += 1;
        converged = (0..3).all(|i| (0..3).all(|j| (current[i][j] - previous[i][j]).abs() < 1e-8));
    }
    assert_eq!(multiplications, 2);
    for j in 0..3 {
        assert!((current[0][j] - row[j]).abs() < 1e-12);
    }
}
