//! Brooks-Corey capillary pressure.

use vstd::prelude::*;
use crate::fixed::{clamp_spec, fx_clamp, fx_div, fx_div_spec, fx_powf_spec, fx_powf_unit, FX_ONE};
use crate::relperm::RockFluidProps;

verus! {

/// Capillary pressure at connate water [bar], before any clamping.
pub const PC_CONNATE_BAR: i64 = 1000 * 1_000_000_000;

/// Upper clamp of the Brooks-Corey curve away from the endpoints [bar].
pub const PC_CLAMP_BAR: i64 = 500 * 1_000_000_000;

/// Brooks-Corey capillary-pressure parameters, fixed-point scaled.
#[derive(Clone, Copy, PartialEq, Eq, Structural)]
pub struct CapillaryPressure {
    /// Entry (displacement) pressure [bar].
    pub p_entry: i64,
    /// Brooks-Corey pore-size exponent.
    pub lambda: i64,
}

impl CapillaryPressure {
    /// A non-negative entry pressure and a positive exponent.
    pub open spec fn inv(self) -> bool {
        &&& 0 <= self.p_entry
        &&& 0 < self.lambda
    }

    /// The default curve: 5 bar entry pressure, exponent 2.
    pub fn default_pc() -> (r: CapillaryPressure)
        ensures
            r.inv(),
            r.p_entry == 5 * FX_ONE,
            r.lambda == 2 * FX_ONE,
    {
        CapillaryPressure { p_entry: 5 * FX_ONE, lambda: 2 * FX_ONE }
    }

    /// The Brooks-Corey curve as a specification value: zero at full
    /// effective saturation, the connate plateau at or below zero, and
    /// the clamped power law P_e * S_eff^(-1/lambda) in between,
    /// computed as P_e over S_eff^(1/lambda).
    pub open spec fn pc_spec(self, s_w: int, rock: RockFluidProps) -> int {
        let s_eff = rock.eff_sat_spec(s_w);
        if s_eff >= FX_ONE {
            0
        } else if s_eff <= 0 {
            PC_CONNATE_BAR as int
        } else {
            let inv_lambda = fx_div_spec(FX_ONE as int, self.lambda as int);
            let root = if inv_lambda <= 0 {
                FX_ONE as int
            } else {
                fx_powf_spec(s_eff, inv_lambda)
            };
            if root == 0 {
                PC_CLAMP_BAR as int
            } else {
                clamp_spec(fx_div_spec(self.p_entry as int, root), 0, PC_CLAMP_BAR as int)
            }
        }
    }

    /// Capillary pressure [bar] at the given water saturation: zero at
    /// the residual-oil endpoint, a fixed high plateau at or below
    /// connate water, and the clamped Brooks-Corey power law
    /// P_e * S_eff^(-1/lambda) in between. Always within [0, 1000 bar].
    pub fn capillary_pressure(&self, s_w: i64, rock: &RockFluidProps) -> (r: i64)
        requires
            self.inv(),
            rock.inv(),
        ensures
            r as int == self.pc_spec(s_w as int, *rock),
            0 <= r <= PC_CONNATE_BAR,
            s_w >= FX_ONE - rock.s_or ==> r == 0,
            s_w <= rock.s_wc ==> r == PC_CONNATE_BAR,
    {
        let s_eff: i64 = rock.effective_saturation(s_w);
        if s_eff >= FX_ONE {
            return 0;
        }
        if s_eff <= 0 {
            return PC_CONNATE_BAR;
        }
        let inv_lambda: i64 = fx_div(FX_ONE, self.lambda);
        let root: i64 = if inv_lambda <= 0 {
            FX_ONE
        } else {
            fx_powf_unit(s_eff, inv_lambda)
        };
        if root == 0 {
            return PC_CLAMP_BAR;
        }
        let raw: i64 = fx_div(self.p_entry, root);
        proof {
            lemma_div_nonneg(self.p_entry as int, root as int);
        }
        fx_clamp(raw, 0, PC_CLAMP_BAR)
    }
}

/// A quotient of non-negative by positive stays non-negative.
proof fn lemma_div_nonneg(a: int, b: int)
    by (nonlinear_arith)
    requires
        0 <= a,
        0 < b,
    ensures
        0 <= crate::fixed::fx_div_spec(a, b),
{
}

} // verus!
