//! Sparse pressure-system storage and the preconditioned conjugate
//! gradient solver.
//!
//! The matrix is held in compressed sparse rows over fixed-point values.
//! The solver follows the classic Jacobi-preconditioned CG recurrence,
//! recomputing the residual explicitly from the iterate each pass so the
//! measured residual cannot drift from the true one; its dot products
//! are carried in wide 128-bit accumulators saturated at `DOT_CAP`, and
//! a non-converged run hands back the iterate whose residual was the
//! smallest seen, with the convergence flag and iteration count.

use vstd::prelude::*;
use crate::fixed::{
    cap_add_i128, fx_add, fx_div_spec, fx_mul, fx_mul_spec, fx_ratio_i128, fx_sub, mul_fx_wide,
    mul_fx_wide_spec, sat_cap, sat_i64, DOT_CAP, FX_ONE,
};

verus! {

/// Relative-tolerance denominator: convergence is declared when the
/// squared residual norm falls to 1e-14 of its initial value, matching
/// a relative tolerance of 1e-7 on the norm itself.
pub const REL_TOL_SQ_DEN: i128 = 100_000_000_000_000;

/// A square sparse matrix in compressed-sparse-row form.
pub struct CsrMatrix {
    /// Number of rows and columns.
    pub n: usize,
    /// Row r occupies entries row_ptr[r] .. row_ptr[r + 1].
    pub row_ptr: Vec<usize>,
    /// Column of each stored entry.
    pub col_idx: Vec<usize>,
    /// Fixed-point value of each stored entry.
    pub values: Vec<i64>,
}

impl CsrMatrix {
    /// Structural well-formedness of the row partition.
    pub open spec fn wf(self) -> bool {
        &&& self.row_ptr@.len() == self.n + 1
        &&& self.row_ptr@[0] == 0
        &&& forall|r: int|
            0 <= r < self.n ==> #[trigger] self.row_ptr@[r] <= self.row_ptr@[r + 1]
        &&& forall|r: int| 0 <= r <= self.n ==> #[trigger] self.row_ptr@[r] <= self.values.len()
        &&& self.row_ptr@[self.n as int] == self.values.len()
        &&& self.col_idx@.len() == self.values@.len()
        &&& forall|e: int| 0 <= e < self.col_idx@.len() ==> #[trigger] self.col_idx@[e] < self.n
    }
}

/// The fixed-point term an entry contributes to a row product.
pub open spec fn entry_term(m: CsrMatrix, x: Seq<i64>, e: int) -> int {
    fx_mul_spec(m.values@[e] as int, x[m.col_idx@[e] as int] as int)
}

/// Saturating left fold of the entry terms over [lo, hi).
pub open spec fn row_dot_prefix(m: CsrMatrix, x: Seq<i64>, lo: int, hi: int) -> int
    decreases hi - lo,
{
    if hi <= lo {
        0
    } else {
        sat_i64(row_dot_prefix(m, x, lo, hi - 1) + entry_term(m, x, hi - 1))
    }
}

/// The full product of row r with the vector x.
pub open spec fn row_dot(m: CsrMatrix, x: Seq<i64>, r: int) -> int {
    row_dot_prefix(m, x, m.row_ptr@[r] as int, m.row_ptr@[r + 1] as int)
}

/// Sparse matrix-vector product, row by row, with the exact saturating
/// fold of each row as its contract.
pub fn csr_mul_vec(a: &CsrMatrix, x: &Vec<i64>) -> (y: Vec<i64>)
    requires
        a.wf(),
        x@.len() == a.n,
    ensures
        y@.len() == a.n,
        forall|i: int| 0 <= i < a.n ==> y@[i] as int == row_dot(*a, x@, i),
{
    let n: usize = a.n;
    let mut y: Vec<i64> = Vec::new();
    let mut i: usize = 0;
    while i < n
        invariant
            i <= n,
            a.wf(),
            x@.len() == a.n,
            n == a.n,
            y@.len() == i,
            forall|r: int| 0 <= r < i ==> y@[r] as int == row_dot(*a, x@, r),
        decreases n - i,
    {
        let lo: usize = a.row_ptr[i];
        let hi: usize = a.row_ptr[i + 1];
        let mut acc: i64 = 0;
        let mut e: usize = lo;
        while e < hi
            invariant
                a.wf(),
                x@.len() == a.n,
                i < a.n,
                lo == a.row_ptr@[i as int],
                hi == a.row_ptr@[i as int + 1],
                lo <= e <= hi,
                hi <= a.values@.len(),
                acc as int == row_dot_prefix(*a, x@, lo as int, e as int),
            decreases hi - e,
        {
            let col: usize = a.col_idx[e];
            let term: i64 = fx_mul(a.values[e], x[col]);
            acc = fx_add(acc, term);
            e = e + 1;
        }
        y.push(acc);
        i = i + 1;
    }
    y
}

/// An element-wise copy of a fixed-point vector.
pub fn vec_copy(v: &Vec<i64>) -> (r: Vec<i64>)
    ensures
        r@ == v@,
{
    let n: usize = v.len();
    let mut r: Vec<i64> = Vec::new();
    let mut i: usize = 0;
    while i < n
        invariant
            i <= n,
            n == v@.len(),
            r@.len() == i,
            forall|k: int| 0 <= k < i ==> r@[k] == v@[k],
        decreases n - i,
    {
        r.push(v[i]);
        i = i + 1;
    }
    proof {
        assert(r@ =~= v@);
    }
    r
}

/// Capped fold of the pairwise fixed-point products over the prefix
/// [0, i) of two equal-length vectors.
pub open spec fn dot_cap_prefix(a: Seq<i64>, b: Seq<i64>, i: int) -> int
    decreases i,
{
    if i <= 0 {
        0
    } else {
        sat_cap(
            dot_cap_prefix(a, b, i - 1) + mul_fx_wide_spec(a[i - 1] as int, b[i - 1] as int),
            DOT_CAP as int,
        )
    }
}

/// Wide dot product of two vectors, saturated at `DOT_CAP`.
pub fn dot_cap(a: &Vec<i64>, b: &Vec<i64>) -> (r: i128)
    requires
        a@.len() == b@.len(),
    ensures
        r as int == dot_cap_prefix(a@, b@, a@.len() as int),
        -DOT_CAP <= r <= DOT_CAP,
{
    let n: usize = a.len();
    let mut acc: i128 = 0;
    let mut i: usize = 0;
    while i < n
        invariant
            i <= n,
            n == a@.len(),
            a@.len() == b@.len(),
            acc as int == dot_cap_prefix(a@, b@, i as int),
            -DOT_CAP <= acc <= DOT_CAP,
        decreases n - i,
    {
        let t: i128 = mul_fx_wide(a[i], b[i]);
        acc = cap_add_i128(acc, t);
        i = i + 1;
    }
    acc
}

/// The capped sum of squares is non-negative.
pub proof fn lemma_nrm2_nonneg(a: Seq<i64>, i: int)
    ensures
        dot_cap_prefix(a, a, i) >= 0,
    decreases i,
{
    if i > 0 {
        lemma_nrm2_nonneg(a, i - 1);
        assert(mul_fx_wide_spec(a[i - 1] as int, a[i - 1] as int) >= 0) by (nonlinear_arith);
    }
}

/// A positive value strictly exceeds its quotient by the tolerance
/// denominator.
proof fn lemma_small_quotient(v: int)
    requires
        v >= 1,
    ensures
        v / (REL_TOL_SQ_DEN as int) < v,
{
}

/// The saturating residual b - A x of an iterate, entry by entry.
pub open spec fn residual_seq(m: CsrMatrix, b: Seq<i64>, x: Seq<i64>) -> Seq<i64> {
    Seq::new(b.len(), |i: int| sat_i64(b[i] - row_dot(m, x, i)) as i64)
}

/// The capped squared norm of an iterate's residual.
pub open spec fn residual_norm2(m: CsrMatrix, b: Seq<i64>, x: Seq<i64>) -> int {
    dot_cap_prefix(residual_seq(m, b, x), residual_seq(m, b, x), b.len() as int)
}

/// What the conjugate-gradient solve hands back.
pub struct PcgResult {
    /// The final iterate, converged or not.
    pub solution: Vec<i64>,
    /// Whether the relative-residual test was met.
    pub converged: bool,
    /// Iterations taken.
    pub iterations: usize,
}

/// Jacobi-preconditioned conjugate gradients with a caller-supplied
/// initial guess. The solve stops when the squared residual norm drops
/// to 1e-14 of its initial value, when the search-direction curvature
/// vanishes at the working resolution, or at the iteration cap; a run
/// that never meets the residual test hands back the iterate whose
/// residual was smallest, so a diverging recurrence cannot poison the
/// committed state. A residual that is already zero at the working
/// resolution returns the guess untouched.
pub fn solve_pcg_with_guess(
    a: &CsrMatrix,
    b: &Vec<i64>,
    m_inv_diag: &Vec<i64>,
    x0: &Vec<i64>,
    max_iter: usize,
) -> (res: PcgResult)
    requires
        a.wf(),
        b@.len() == a.n,
        m_inv_diag@.len() == a.n,
        x0@.len() == a.n,
    ensures
        res.solution@.len() == a.n,
        res.iterations <= max_iter,
        residual_norm2(*a, b@, x0@) == 0 ==> res.solution@ == x0@ && res.converged
            && res.iterations == 0,
        res.converged ==> residual_norm2(*a, b@, res.solution@) <= residual_norm2(*a, b@, x0@)
            / (REL_TOL_SQ_DEN as int),
        !res.converged ==> residual_norm2(*a, b@, res.solution@) > residual_norm2(*a, b@, x0@)
            / (REL_TOL_SQ_DEN as int),
        !res.converged ==> residual_norm2(*a, b@, res.solution@) <= residual_norm2(*a, b@, x0@),
{
    let n: usize = a.n;
    let ghost r0_seq = residual_seq(*a, b@, x0@);
    let mut x: Vec<i64> = Vec::new();
    let mut i: usize = 0;
    while i < n
        invariant
            i <= n,
            n == x0@.len(),
            x@.len() == i,
            forall|k: int| 0 <= k < i ==> x@[k] == x0@[k],
        decreases n - i,
    {
        x.push(x0[i]);
        i = i + 1;
    }
    proof {
        assert(x@ =~= x0@);
    }
    let ax: Vec<i64> = csr_mul_vec(a, &x);
    let mut r: Vec<i64> = Vec::new();
    i = 0;
    while i < n
        invariant
            i <= n,
            n == a.n,
            b@.len() == a.n,
            ax@.len() == a.n,
            r@.len() == i,
            forall|k: int|
                0 <= k < i ==> r@[k] as int == sat_i64(b@[k] - ax@[k]),
        decreases n - i,
    {
        r.push(fx_sub(b[i], ax[i]));
        i = i + 1;
    }
    proof {
        assert forall|k: int| 0 <= k < n implies r@[k] == r0_seq[k] by {
            assert(ax@[k] as int == row_dot(*a, x@, k));
        }
        assert(r@ =~= r0_seq);
    }
    let nr0: i128 = dot_cap(&r, &r);
    proof {
        lemma_nrm2_nonneg(r@, n as int);
    }
    if nr0 == 0 {
        return PcgResult { solution: x, converged: true, iterations: 0 };
    }
    let mut z: Vec<i64> = Vec::new();
    i = 0;
    while i < n
        invariant
            i <= n,
            n == r@.len(),
            m_inv_diag@.len() == n,
            z@.len() == i,
        decreases n - i,
    {
        z.push(fx_mul(r[i], m_inv_diag[i]));
        i = i + 1;
    }
    let mut p: Vec<i64> = Vec::new();
    i = 0;
    while i < n
        invariant
            i <= n,
            n == z@.len(),
            p@.len() == i,
        decreases n - i,
    {
        p.push(z[i]);
        i = i + 1;
    }
    let mut r_dot_z: i128 = dot_cap(&r, &z);
    let mut converged: bool = false;
    let mut iterations: usize = 0;
    let mut done: bool = false;
    let tol_threshold: i128 = nr0 / REL_TOL_SQ_DEN;
    let mut best_x: Vec<i64> = vec_copy(&x);
    let mut best_nr: i128 = nr0;
    let mut it: usize = 0;
    proof {
        assert(nr0 as int == residual_norm2(*a, b@, x0@));
    }
    while it < max_iter && !done
        invariant
            n == a.n,
            a.wf(),
            x@.len() == n,
            r@.len() == n,
            z@.len() == n,
            p@.len() == n,
            best_x@.len() == n,
            b@.len() == n,
            m_inv_diag@.len() == n,
            it <= max_iter,
            iterations <= max_iter,
            -DOT_CAP <= r_dot_z <= DOT_CAP,
            nr0 as int == residual_norm2(*a, b@, x0@),
            nr0 >= 1,
            tol_threshold == nr0 / REL_TOL_SQ_DEN,
            r@ == residual_seq(*a, b@, x@),
            best_nr as int == residual_norm2(*a, b@, best_x@),
            best_nr <= nr0,
            !converged ==> best_nr > tol_threshold,
            converged ==> residual_norm2(*a, b@, x@) <= tol_threshold,
        decreases max_iter - it,
    {
        iterations = it + 1;
        let nr: i128 = dot_cap(&r, &r);
        if nr > tol_threshold && nr < best_nr {
            best_nr = nr;
            best_x = vec_copy(&x);
        }
        if nr <= tol_threshold {
            converged = true;
            done = true;
        } else {
            let q: Vec<i64> = csr_mul_vec(a, &p);
            let p_dot_q: i128 = dot_cap(&p, &q);
            if p_dot_q == 0 {
                done = true;
            } else {
                let alpha: i64 = fx_ratio_i128(r_dot_z, p_dot_q);
                let mut x_new: Vec<i64> = Vec::new();
                i = 0;
                while i < n
                    invariant
                        i <= n,
                        x@.len() == n,
                        p@.len() == n,
                        x_new@.len() == i,
                    decreases n - i,
                {
                    x_new.push(fx_add(x[i], fx_mul(alpha, p[i])));
                    i = i + 1;
                }
                x = x_new;
                let ax_new: Vec<i64> = csr_mul_vec(a, &x);
                let mut r_new: Vec<i64> = Vec::new();
                i = 0;
                while i < n
                    invariant
                        i <= n,
                        b@.len() == n,
                        ax_new@.len() == n,
                        r_new@.len() == i,
                        forall|k: int|
                            0 <= k < i ==> r_new@[k] as int == sat_i64(b@[k] - ax_new@[k]),
                    decreases n - i,
                {
                    r_new.push(fx_sub(b[i], ax_new[i]));
                    i = i + 1;
                }
                r = r_new;
                proof {
                    assert forall|k: int|
                        0 <= k < n implies r@[k] == residual_seq(*a, b@, x@)[k] by {
                        assert(ax_new@[k] as int == row_dot(*a, x@, k));
                    }
                    assert(r@ =~= residual_seq(*a, b@, x@));
                }
                let mut z_new: Vec<i64> = Vec::new();
                i = 0;
                while i < n
                    invariant
                        i <= n,
                        r@.len() == n,
                        m_inv_diag@.len() == n,
                        z_new@.len() == i,
                    decreases n - i,
                {
                    z_new.push(fx_mul(r[i], m_inv_diag[i]));
                    i = i + 1;
                }
                z = z_new;
                let r_new_dot_z_new: i128 = dot_cap(&r, &z);
                let beta: i64 = if r_dot_z == 0 {
                    0
                } else {
                    fx_ratio_i128(r_new_dot_z_new, r_dot_z)
                };
                let mut p_new: Vec<i64> = Vec::new();
                i = 0;
                while i < n
                    invariant
                        i <= n,
                        z@.len() == n,
                        p@.len() == n,
                        p_new@.len() == i,
                    decreases n - i,
                {
                    p_new.push(fx_add(z[i], fx_mul(beta, p[i])));
                    i = i + 1;
                }
                p = p_new;
                r_dot_z = r_new_dot_z_new;
            }
        }
        it = it + 1;
    }
    if converged {
        PcgResult { solution: x, converged, iterations }
    } else {
        proof {
            lemma_small_quotient(nr0 as int);
        }
        PcgResult { solution: best_x, converged, iterations }
    }
}

} // verus!
