use ressim::fixed::FX_ONE;
use ressim::solver::{csr_mul_vec, solve_pcg_with_guess, CsrMatrix};

const FX: i64 = FX_ONE;

/// A 2 x 2 matrix [[2, -1], [-1, 2]] in fixed-point CSR form.
fn two_by_two() -> CsrMatrix {
    CsrMatrix {
        n: 2,
        row_ptr: vec![0, 2, 4],
        col_idx: vec![0, 1, 0, 1],
        values: vec![2 * FX, -FX, -FX, 2 * FX],
    }
}

#[test]
fn csr_matvec_is_exact() {
    let a = two_by_two();
    let y = csr_mul_vec(&a, &vec![3 * FX, 5 * FX]);
    assert_eq!(y, vec![FX, 7 * FX]);
    let zero = csr_mul_vec(&a, &vec![0, 0]);
    assert_eq!(zero, vec![0, 0]);
}

#[test]
fn pcg_solves_a_diagonal_system_exactly() {
    let a = CsrMatrix { n: 1, row_ptr: vec![0, 1], col_idx: vec![0], values: vec![2 * FX] };
    let res = solve_pcg_with_guess(&a, &vec![4 * FX], &vec![FX / 2], &vec![0], 100);
    assert!(res.converged);
    assert_eq!(res.solution, vec![2 * FX]);
}

#[test]
fn pcg_returns_the_guess_on_zero_residual() {
    let a = two_by_two();
    // x = [2, 3] gives A x = [1, 4].
    let b = vec![FX, 4 * FX];
    let x0 = vec![2 * FX, 3 * FX];
    let m_inv = vec![FX / 2, FX / 2];
    let res = solve_pcg_with_guess(&a, &b, &m_inv, &x0, 100);
    assert!(res.converged);
    assert_eq!(res.iterations, 0);
    assert_eq!(res.solution, x0);
}

#[test]
fn pcg_surfaces_the_iterate_when_capped() {
    let a = two_by_two();
    let b = vec![FX, 4 * FX];
    let x0 = vec![0, 0];
    let m_inv = vec![FX / 2, FX / 2];
    let res = solve_pcg_with_guess(&a, &b, &m_inv, &x0, 0);
    assert!(!res.converged);
    assert_eq!(res.iterations, 0);
    assert_eq!(res.solution, x0);
}

#[test]
fn pcg_converges_on_a_small_spd_system() {
    let a = two_by_two();
    let b = vec![FX, 4 * FX];
    let x0 = vec![0, 0];
    let m_inv = vec![FX / 2, FX / 2];
    let res = solve_pcg_with_guess(&a, &b, &m_inv, &x0, 1000);
    // Exact solution is x = [2, 3].
    assert!((res.solution[0] - 2 * FX).abs() < 1000);
    assert!((res.solution[1] - 3 * FX).abs() < 1000);
}
