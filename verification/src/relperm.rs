//! Corey relative-permeability closures.

use vstd::prelude::*;
use crate::fixed::{clamp_spec, fx_clamp, fx_div, fx_div_spec, fx_powf_spec, fx_powf_unit, fx_sub, sat_i64, FX_ONE};

verus! {

/// Rock-fluid (SCAL) parameters: saturation endpoints and the Corey
/// exponents, fixed-point scaled by `FX_ONE`.
#[derive(Clone, Copy, PartialEq, Eq, Structural)]
pub struct RockFluidProps {
    /// Connate (irreducible) water saturation.
    pub s_wc: i64,
    /// Residual oil saturation.
    pub s_or: i64,
    /// Corey exponent for the water phase.
    pub n_w: i64,
    /// Corey exponent for the oil phase.
    pub n_o: i64,
}

impl RockFluidProps {
    /// Both endpoints are non-negative fractions leaving a positive
    /// mobile window, and both exponents are positive.
    pub open spec fn inv(self) -> bool {
        &&& 0 <= self.s_wc
        &&& 0 <= self.s_or
        &&& self.s_wc + self.s_or < FX_ONE
        &&& 0 < self.n_w
        &&& 0 < self.n_o
    }

    /// The default SCAL set: endpoints 0.1/0.1, quadratic Corey curves.
    pub fn default_scal() -> (r: RockFluidProps)
        ensures
            r.inv(),
            r.s_wc == 100_000_000i64,
            r.s_or == 100_000_000i64,
            r.n_w == 2 * FX_ONE,
            r.n_o == 2 * FX_ONE,
    {
        RockFluidProps {
            s_wc: 100_000_000i64,
            s_or: 100_000_000i64,
            n_w: 2 * FX_ONE,
            n_o: 2 * FX_ONE,
        }
    }

    /// The mobile saturation window 1 - S_wc - S_or.
    pub open spec fn window_spec(self) -> int {
        sat_i64(sat_i64(FX_ONE - self.s_wc) - self.s_or)
    }

    /// Effective water saturation as a specification value.
    pub open spec fn eff_sat_spec(self, s_w: int) -> int {
        clamp_spec(fx_div_spec(sat_i64(s_w - self.s_wc), self.window_spec()), 0, FX_ONE as int)
    }

    /// Oil-side effective saturation as a specification value.
    pub open spec fn eff_sat_oil_spec(self, s_w: int) -> int {
        clamp_spec(
            fx_div_spec(sat_i64(sat_i64(FX_ONE - s_w) - self.s_or), self.window_spec()),
            0,
            FX_ONE as int,
        )
    }

    /// Water relative permeability as a specification value: the Corey
    /// power of the effective saturation.
    pub open spec fn k_rw_spec(self, s_w: int) -> int {
        fx_powf_spec(self.eff_sat_spec(s_w), self.n_w as int)
    }

    /// Oil relative permeability as a specification value.
    pub open spec fn k_ro_spec(self, s_w: int) -> int {
        fx_powf_spec(self.eff_sat_oil_spec(s_w), self.n_o as int)
    }

    /// Effective water saturation (S_w - S_wc) / (1 - S_wc - S_or),
    /// clamped into the unit interval: zero at or below connate water,
    /// one at or above the residual-oil endpoint.
    pub fn effective_saturation(&self, s_w: i64) -> (r: i64)
        requires
            self.inv(),
        ensures
            r as int == self.eff_sat_spec(s_w as int),
            0 <= r <= FX_ONE,
            s_w <= self.s_wc ==> r == 0,
            s_w >= FX_ONE - self.s_or ==> r == FX_ONE,
    {
        let window: i64 = fx_sub(fx_sub(FX_ONE, self.s_wc), self.s_or);
        let numer: i64 = fx_sub(s_w, self.s_wc);
        let raw: i64 = fx_div(numer, window);
        proof {
            lemma_div_unit_window(numer as int, window as int);
        }
        fx_clamp(raw, 0, FX_ONE)
    }

    /// Oil-side effective saturation (1 - S_w - S_or) / (1 - S_wc - S_or),
    /// clamped into the unit interval.
    pub fn effective_saturation_oil(&self, s_w: i64) -> (r: i64)
        requires
            self.inv(),
        ensures
            r as int == self.eff_sat_oil_spec(s_w as int),
            0 <= r <= FX_ONE,
            s_w >= FX_ONE - self.s_or ==> r == 0,
            s_w <= self.s_wc ==> r == FX_ONE,
    {
        let window: i64 = fx_sub(fx_sub(FX_ONE, self.s_wc), self.s_or);
        let numer: i64 = fx_sub(fx_sub(FX_ONE, s_w), self.s_or);
        let raw: i64 = fx_div(numer, window);
        proof {
            lemma_div_unit_window(numer as int, window as int);
        }
        fx_clamp(raw, 0, FX_ONE)
    }

    /// Water relative permeability: the Corey power of the effective
    /// saturation. Zero at connate water, one at the residual-oil
    /// endpoint, and always inside the unit interval.
    pub fn k_rw(&self, s_w: i64) -> (r: i64)
        requires
            self.inv(),
        ensures
            r as int == self.k_rw_spec(s_w as int),
            0 <= r <= FX_ONE,
            s_w <= self.s_wc ==> r == 0,
            s_w >= FX_ONE - self.s_or ==> r == FX_ONE,
    {
        let s_eff: i64 = self.effective_saturation(s_w);
        fx_powf_unit(s_eff, self.n_w)
    }

    /// Oil relative permeability: the Corey power of the oil-side
    /// effective saturation. One at connate water, zero at the
    /// residual-oil endpoint.
    pub fn k_ro(&self, s_w: i64) -> (r: i64)
        requires
            self.inv(),
        ensures
            r as int == self.k_ro_spec(s_w as int),
            0 <= r <= FX_ONE,
            s_w >= FX_ONE - self.s_or ==> r == 0,
            s_w <= self.s_wc ==> r == FX_ONE,
    {
        let s_eff: i64 = self.effective_saturation_oil(s_w);
        fx_powf_unit(s_eff, self.n_o)
    }
}

/// Sign and endpoint facts for the effective-saturation quotient.
proof fn lemma_div_unit_window(numer: int, window: int)
    by (nonlinear_arith)
    requires
        0 < window,
    ensures
        numer <= 0 ==> fx_div_spec(numer, window) <= 0,
        numer >= window ==> fx_div_spec(numer, window) >= FX_ONE,
{
}

} // verus!
