//! The IMPES step engine: flow coefficients, the dynamic Peaceman well
//! model, pressure-system assembly, explicit saturation transport, and
//! the adaptive sub-stepping controller.

use vstd::prelude::*;
use crate::fixed::{
    fx_add, fx_clamp, fx_div, fx_div_spec, fx_ln, fx_ln_spec, fx_mul, fx_mul_spec, fx_scale,
    fx_scale_spec, fx_sqrt, fx_sqrt_spec, fx_sub, iabs, sat_i64, FX_ONE,
};
use crate::grid::GridCell;
use crate::sim::{ReservoirSimulator, WellControlMode};
use crate::well::{Well, WellError};

verus! {

/// Unit conversion of transmissibility and productivity index:
/// 8.527e-5 turns mD*m^2/(m*cP) into m^3/(day*bar).
pub const C_TRANS: i64 = 85_270;

/// Two pi in fixed-point form.
pub const TWO_PI_FX: i64 = 6_283_185_307;

/// Standard gravity times the pascal-to-bar factor enters the head as
/// the rational 980665 / 10^10, that is 9.80665e-5 bar per (kg/m^3 * m).
pub const GRAV_NUM: u64 = 980_665;

/// Denominator of the gravity conversion factor.
pub const GRAV_DEN: u64 = 10_000_000_000;

/// The smallest target interval sure to advance time: even at the 0.01
/// floor of the stability factor and the 0.9 safety slack, a remaining
/// interval of this many fixed-point units commits at least one unit.
pub const MIN_ADVANCE_DT: i64 = 200;

/// Consecutive CFL rejections a step tolerates before giving up.
pub const MAX_ATTEMPTS: u32 = 10;

/// A grid axis, naming which face of the seven-point stencil is used.
#[derive(Clone, Copy, PartialEq, Eq, Structural, Debug)]
pub enum Axis {
    X,
    Y,
    Z,
}

/// What the control resolution decides for one well in one sub-step.
#[derive(Clone, Copy, PartialEq, Eq, Structural, Debug)]
pub enum WellControlDecision {
    /// The well contributes nothing.
    Disabled,
    /// The well exchanges the fixed volumetric rate [m^3/day],
    /// positive for production.
    Rate { q_m3_day: i64 },
    /// The well is pressure-controlled at this bottom-hole value [bar].
    Bhp { bhp_bar: i64 },
}

impl ReservoirSimulator {
    /// Water-phase mobility of a cell as a specification value.
    pub open spec fn spec_lambda_w(self, cell: GridCell) -> int {
        fx_div_spec(self.scal.k_rw_spec(cell.sat_water as int), self.pvt.mu_w as int)
    }

    /// Oil-phase mobility of a cell as a specification value.
    pub open spec fn spec_lambda_o(self, cell: GridCell) -> int {
        fx_div_spec(self.scal.k_ro_spec(cell.sat_water as int), self.pvt.mu_o as int)
    }

    /// Total mobility of a cell as a specification value.
    pub open spec fn spec_total_mobility(self, cell: GridCell) -> int {
        sat_i64(self.spec_lambda_w(cell) + self.spec_lambda_o(cell))
    }

    /// Fractional flow of water as a specification value: lambda_w over
    /// lambda_t, clamped into the unit interval, zero without mobility.
    pub open spec fn spec_frac_flow(self, cell: GridCell) -> int {
        let lam_w = self.spec_lambda_w(cell);
        let lam_t = self.spec_total_mobility(cell);
        if lam_t <= 0 {
            0
        } else {
            crate::fixed::clamp_spec(fx_div_spec(lam_w, lam_t), 0, FX_ONE as int)
        }
    }

    /// Mobility-weighted face density as a specification value.
    pub open spec fn spec_face_density(self, c_i: GridCell, c_j: GridCell) -> int {
        let lam_w_avg = fx_scale_spec(
            sat_i64(self.spec_lambda_w(c_i) + self.spec_lambda_w(c_j)),
            1,
            2,
        );
        let lam_o_avg = fx_scale_spec(
            sat_i64(self.spec_lambda_o(c_i) + self.spec_lambda_o(c_j)),
            1,
            2,
        );
        let lam_t_avg = sat_i64(lam_w_avg + lam_o_avg);
        if lam_t_avg <= 0 {
            fx_scale_spec(sat_i64(self.pvt.rho_w + self.pvt.rho_o), 1, 2)
        } else {
            fx_div_spec(
                sat_i64(
                    fx_mul_spec(lam_w_avg, self.pvt.rho_w as int) + fx_mul_spec(
                        lam_o_avg,
                        self.pvt.rho_o as int,
                    ),
                ),
                lam_t_avg,
            )
        }
    }

    /// Geometric face transmissibility as a specification value: the
    /// harmonic permeability mean times face area over distance.
    pub open spec fn spec_geom_trans(self, c1: GridCell, c2: GridCell, axis: Axis) -> int {
        let perm1 = if axis is X {
            c1.perm_x
        } else if axis is Y {
            c1.perm_y
        } else {
            c1.perm_z
        };
        let perm2 = if axis is X {
            c2.perm_x
        } else if axis is Y {
            c2.perm_y
        } else {
            c2.perm_z
        };
        let dist = if axis is X {
            self.dx
        } else if axis is Y {
            self.dy
        } else {
            self.dz
        };
        let area = if axis is X {
            fx_mul_spec(self.dy as int, self.dz as int)
        } else if axis is Y {
            fx_mul_spec(self.dx as int, self.dz as int)
        } else {
            fx_mul_spec(self.dx as int, self.dy as int)
        };
        let psum = sat_i64(perm1 + perm2);
        if psum <= 0 {
            0
        } else {
            let k_h = fx_div_spec(
                fx_scale_spec(fx_mul_spec(perm1 as int, perm2 as int), 2, 1),
                psum,
            );
            if k_h <= 0 {
                0
            } else {
                fx_div_spec(fx_mul_spec(k_h, area), dist as int)
            }
        }
    }

    /// Upstream-weighted face transmissibility as a specification
    /// value: the geometric factor, unit conversion, and the total
    /// mobility of the cell the potential difference points away from.
    pub open spec fn spec_transmissibility_upstream(
        self,
        c1: GridCell,
        c2: GridCell,
        axis: Axis,
        p_i: int,
        p_j: int,
        grav_head_bar: int,
    ) -> int {
        let t_geom = self.spec_geom_trans(c1, c2, axis);
        if t_geom == 0 {
            0
        } else {
            let potential_diff = sat_i64(sat_i64(p_i - p_j) - grav_head_bar);
            let mob = if potential_diff >= 0 {
                self.spec_total_mobility(c1)
            } else {
                self.spec_total_mobility(c2)
            };
            fx_mul_spec(fx_mul_spec(C_TRANS as int, t_geom), mob)
        }
    }

    /// Total mobility of a cell: k_rw / mu_w + k_ro / mu_o [1/cP].
    pub fn total_mobility(&self, cell: &GridCell) -> (r: i64)
        requires
            self.scal.inv(),
            self.pvt.inv(),
        ensures
            r as int == self.spec_total_mobility(*cell),
            0 <= r,
    {
        let krw: i64 = self.scal.k_rw(cell.sat_water);
        let kro: i64 = self.scal.k_ro(cell.sat_water);
        let lam_w: i64 = fx_div(krw, self.pvt.mu_w);
        let lam_o: i64 = fx_div(kro, self.pvt.mu_o);
        proof {
            lemma_fx_div_nonneg_pos(krw as int, self.pvt.mu_w as int);
            lemma_fx_div_nonneg_pos(kro as int, self.pvt.mu_o as int);
        }
        fx_add(lam_w, lam_o)
    }

    /// Water and oil phase mobilities of a cell [1/cP].
    pub fn phase_mobilities(&self, cell: &GridCell) -> (r: (i64, i64))
        requires
            self.scal.inv(),
            self.pvt.inv(),
        ensures
            r.0 as int == self.spec_lambda_w(*cell),
            r.1 as int == self.spec_lambda_o(*cell),
            0 <= r.0,
            0 <= r.1,
    {
        let krw: i64 = self.scal.k_rw(cell.sat_water);
        let kro: i64 = self.scal.k_ro(cell.sat_water);
        let lam_w: i64 = fx_div(krw, self.pvt.mu_w);
        let lam_o: i64 = fx_div(kro, self.pvt.mu_o);
        proof {
            lemma_fx_div_nonneg_pos(krw as int, self.pvt.mu_w as int);
            lemma_fx_div_nonneg_pos(kro as int, self.pvt.mu_o as int);
        }
        (lam_w, lam_o)
    }

    /// Capillary pressure of the cell's closure at the given saturation.
    pub fn get_capillary_pressure(&self, s_w: i64) -> (r: i64)
        requires
            self.scal.inv(),
            self.pc.inv(),
        ensures
            r as int == self.pc.pc_spec(s_w as int, self.scal),
            0 <= r <= crate::capillary::PC_CONNATE_BAR,
    {
        self.pc.capillary_pressure(s_w, &self.scal)
    }

    /// Fractional flow of water: lambda_w / lambda_t, clamped into the
    /// unit interval; zero where the total mobility vanishes.
    pub fn frac_flow_water(&self, cell: &GridCell) -> (r: i64)
        requires
            self.scal.inv(),
            self.pvt.inv(),
        ensures
            r as int == self.spec_frac_flow(*cell),
            0 <= r <= FX_ONE,
            cell.sat_water <= self.scal.s_wc ==> r == 0,
    {
        let krw: i64 = self.scal.k_rw(cell.sat_water);
        let kro: i64 = self.scal.k_ro(cell.sat_water);
        let lam_w: i64 = fx_div(krw, self.pvt.mu_w);
        let lam_o: i64 = fx_div(kro, self.pvt.mu_o);
        proof {
            lemma_fx_div_nonneg_pos(krw as int, self.pvt.mu_w as int);
            lemma_fx_div_nonneg_pos(kro as int, self.pvt.mu_o as int);
        }
        let lam_t: i64 = fx_add(lam_w, lam_o);
        if lam_t <= 0 {
            0
        } else {
            let raw: i64 = fx_div(lam_w, lam_t);
            proof {
                lemma_fx_div_nonneg_pos(lam_w as int, lam_t as int);
            }
            fx_clamp(raw, 0, FX_ONE)
        }
    }

    /// Depth of the centre of layer k below the datum as a
    /// specification value.
    pub open spec fn spec_depth_at_k(self, k: int) -> int {
        sat_i64(
            self.depth_reference_m + fx_mul_spec(k * (FX_ONE as int) + 500_000_000, self.dz as int),
        )
    }

    /// Gravity head between two layer depths as a specification value.
    pub open spec fn spec_gravity_head(self, k: int, n_k: int, density: int) -> int {
        if !self.gravity_enabled {
            0
        } else {
            fx_scale_spec(
                fx_mul_spec(
                    density,
                    sat_i64(self.spec_depth_at_k(k) - self.spec_depth_at_k(n_k)),
                ),
                GRAV_NUM as int,
                GRAV_DEN as int,
            )
        }
    }

    /// Depth of the centre of layer k below the datum [m].
    pub fn depth_at_k(&self, k: usize) -> (r: i64)
        requires
            self.wf(),
            k < self.nz,
        ensures
            r as int == self.spec_depth_at_k(k as int),
    {
        proof {
            crate::sim::lemma_grid_products(self.nx as int, self.ny as int, self.nz as int);
        }
        let centre: i64 = (k as i64) * FX_ONE + 500_000_000i64;
        fx_add(self.depth_reference_m, fx_mul(centre, self.dz))
    }

    /// Gravity head between two depths [bar]: density times depth
    /// difference times 9.80665e-5; zero when gravity is disabled.
    pub fn gravity_head_bar(&self, depth_i: i64, depth_j: i64, density_kg_m3: i64) -> (r: i64)
        ensures
            !self.gravity_enabled ==> r == 0,
            self.gravity_enabled ==> r as int == fx_scale_spec(
                fx_mul_spec(density_kg_m3 as int, sat_i64(depth_i - depth_j)),
                GRAV_NUM as int,
                GRAV_DEN as int,
            ),
            depth_i == depth_j ==> r == 0,
    {
        if !self.gravity_enabled {
            return 0;
        }
        let dz_m: i64 = fx_sub(depth_i, depth_j);
        let rho_dz: i64 = fx_mul(density_kg_m3, dz_m);
        proof {
            if depth_i == depth_j {
                assert(fx_mul_spec(density_kg_m3 as int, 0) == 0) by (nonlinear_arith);
                assert(fx_scale_spec(0, GRAV_NUM as int, GRAV_DEN as int) == 0) by (
                nonlinear_arith)
                    requires
                        GRAV_DEN > 0,
                ;
            }
        }
        fx_scale(rho_dz, GRAV_NUM, GRAV_DEN)
    }

    /// Mobility-weighted face density [kg/m^3]: the arithmetic mean of
    /// the phase densities when the face has no mobility, otherwise the
    /// phase-mobility-weighted average.
    pub fn total_density_face(&self, c_i: &GridCell, c_j: &GridCell) -> (r: i64)
        requires
            self.scal.inv(),
            self.pvt.inv(),
        ensures
            r as int == self.spec_face_density(*c_i, *c_j),
            0 <= r,
    {
        let (lam_w_i, lam_o_i): (i64, i64) = self.phase_mobilities(c_i);
        let (lam_w_j, lam_o_j): (i64, i64) = self.phase_mobilities(c_j);
        let lam_w_avg: i64 = fx_scale(fx_add(lam_w_i, lam_w_j), 1, 2);
        let lam_o_avg: i64 = fx_scale(fx_add(lam_o_i, lam_o_j), 1, 2);
        proof {
            lemma_fx_scale_half_nonneg(sat_i64(lam_w_i + lam_w_j));
            lemma_fx_scale_half_nonneg(sat_i64(lam_o_i + lam_o_j));
        }
        let lam_t_avg: i64 = fx_add(lam_w_avg, lam_o_avg);
        if lam_t_avg <= 0 {
            let r: i64 = fx_scale(fx_add(self.pvt.rho_w, self.pvt.rho_o), 1, 2);
            proof {
                lemma_fx_scale_half_nonneg(sat_i64(self.pvt.rho_w + self.pvt.rho_o));
            }
            r
        } else {
            let ww: i64 = fx_mul(lam_w_avg, self.pvt.rho_w);
            let wo: i64 = fx_mul(lam_o_avg, self.pvt.rho_o);
            proof {
                crate::grid::lemma_fx_mul_nonneg(lam_w_avg as int, self.pvt.rho_w as int);
                crate::grid::lemma_fx_mul_nonneg(lam_o_avg as int, self.pvt.rho_o as int);
            }
            let num: i64 = fx_add(ww, wo);
            let r: i64 = fx_div(num, lam_t_avg);
            proof {
                lemma_fx_div_nonneg_pos(num as int, lam_t_avg as int);
            }
            r
        }
    }

    /// Geometric transmissibility of the face between two cells along
    /// an axis [mD*m^2/m]: the harmonic permeability mean times face
    /// area over distance. Exact as a fixed-point formula.
    pub fn geometric_transmissibility(&self, c1: &GridCell, c2: &GridCell, axis: Axis) -> (r: i64)
        requires
            self.wf(),
            c1.inv(),
            c2.inv(),
        ensures
            r as int == self.spec_geom_trans(*c1, *c2, axis),
            0 <= r,
    {
        let (perm1, perm2, dist, area): (i64, i64, i64, i64) = match axis {
            Axis::X => (c1.perm_x, c2.perm_x, self.dx, fx_mul(self.dy, self.dz)),
            Axis::Y => (c1.perm_y, c2.perm_y, self.dy, fx_mul(self.dx, self.dz)),
            Axis::Z => (c1.perm_z, c2.perm_z, self.dz, fx_mul(self.dx, self.dy)),
        };
        proof {
            crate::grid::lemma_fx_mul_nonneg(self.dy as int, self.dz as int);
            crate::grid::lemma_fx_mul_nonneg(self.dx as int, self.dz as int);
            crate::grid::lemma_fx_mul_nonneg(self.dx as int, self.dy as int);
        }
        let psum: i64 = fx_add(perm1, perm2);
        if psum <= 0 {
            return 0;
        }
        let pprod: i64 = fx_mul(perm1, perm2);
        proof {
            crate::grid::lemma_fx_mul_nonneg(perm1 as int, perm2 as int);
        }
        let k_h: i64 = fx_div(fx_scale(pprod, 2, 1), psum);
        proof {
            lemma_fx_scale_two_nonneg(pprod as int);
            lemma_fx_div_nonneg_pos(sat_i64(2 * (pprod as int)) as int, psum as int);
        }
        if k_h <= 0 {
            return 0;
        }
        let num: i64 = fx_mul(k_h, area);
        proof {
            crate::grid::lemma_fx_mul_nonneg(k_h as int, area as int);
            lemma_fx_div_nonneg_pos(num as int, dist as int);
        }
        fx_div(num, dist)
    }

    /// Full face transmissibility with upstream-weighted total mobility
    /// [m^3/(day*bar)]: the upstream cell is the one the potential
    /// difference (p_i - p_j) - gravity head points away from.
    pub fn transmissibility_upstream(
        &self,
        c1: &GridCell,
        c2: &GridCell,
        axis: Axis,
        p_i: i64,
        p_j: i64,
        grav_head_bar: i64,
    ) -> (r: i64)
        requires
            self.wf(),
            c1.inv(),
            c2.inv(),
        ensures
            r as int == self.spec_transmissibility_upstream(
                *c1,
                *c2,
                axis,
                p_i as int,
                p_j as int,
                grav_head_bar as int,
            ),
            0 <= r,
    {
        let t_geom: i64 = self.geometric_transmissibility(c1, c2, axis);
        if t_geom == 0 {
            return 0;
        }
        let potential_diff: i64 = fx_sub(fx_sub(p_i, p_j), grav_head_bar);
        let mob_upstream: i64 = if potential_diff >= 0 {
            self.total_mobility(c1)
        } else {
            self.total_mobility(c2)
        };
        let ct: i64 = fx_mul(C_TRANS, t_geom);
        proof {
            crate::grid::lemma_fx_mul_nonneg(C_TRANS as int, t_geom as int);
            crate::grid::lemma_fx_mul_nonneg(ct as int, mob_upstream as int);
        }
        fx_mul(ct, mob_upstream)
    }

    /// Face transmissibility using the committed pressures to pick the
    /// upstream side, as the implicit assembly does.
    pub fn transmissibility_with_prev_pressure(
        &self,
        c1: &GridCell,
        c2: &GridCell,
        axis: Axis,
        grav_head_bar: i64,
    ) -> (r: i64)
        requires
            self.wf(),
            c1.inv(),
            c2.inv(),
        ensures
            r as int == self.spec_transmissibility_upstream(
                *c1,
                *c2,
                axis,
                c1.pressure as int,
                c2.pressure as int,
                grav_head_bar as int,
            ),
            0 <= r,
    {
        self.transmissibility_upstream(c1, c2, axis, c1.pressure, c2.pressure, grav_head_bar)
    }

    /// The Peaceman productivity index as a specification value,
    /// mirroring the fixed-point evaluation step by step: the
    /// anisotropic equivalent radius, the geometric-mean permeability,
    /// and C * 2 pi * sqrt(kx ky) * dz * lambda_t over
    /// ln(r_eq / r_w) + skin, with each rejection in place.
    pub open spec fn spec_well_pi(self, cell: GridCell, well_radius: int, skin: int) -> Result<
        i64,
        WellError,
    > {
        let kx = cell.perm_x as int;
        let ky = cell.perm_y as int;
        if kx <= 0 || ky <= 0 {
            Err(WellError::PermeabilityNotPositive)
        } else if well_radius <= 0 {
            Err(WellError::RadiusNotPositive)
        } else {
            let sqrt_xy = fx_sqrt_spec(fx_div_spec(kx, ky));
            let sqrt_yx = fx_sqrt_spec(fx_div_spec(ky, kx));
            let mix = sat_i64(
                fx_mul_spec(sqrt_xy, fx_mul_spec(self.dx as int, self.dx as int)) + fx_mul_spec(
                    sqrt_yx,
                    fx_mul_spec(self.dy as int, self.dy as int),
                ),
            );
            let quart_sum = sat_i64(fx_sqrt_spec(sqrt_xy) + fx_sqrt_spec(sqrt_yx));
            if quart_sum <= 0 {
                Err(WellError::EquivalentRadiusNotPositive)
            } else {
                let r_eq = fx_scale_spec(fx_div_spec(fx_sqrt_spec(mix), quart_sum), 28, 100);
                if r_eq <= 0 {
                    Err(WellError::EquivalentRadiusNotPositive)
                } else if r_eq <= well_radius {
                    Err(WellError::EquivalentRadiusTooSmall)
                } else {
                    let k_avg = fx_sqrt_spec(fx_mul_spec(kx, ky));
                    if k_avg <= 0 {
                        Err(WellError::AveragePermeabilityZero)
                    } else {
                        let denom = sat_i64(fx_ln_spec(fx_div_spec(r_eq, well_radius)) + skin);
                        if denom == 0 {
                            Err(WellError::SingularPiDenominator)
                        } else {
                            let num = fx_mul_spec(
                                fx_mul_spec(
                                    fx_mul_spec(
                                        fx_mul_spec(C_TRANS as int, TWO_PI_FX as int),
                                        k_avg,
                                    ),
                                    self.dz as int,
                                ),
                                self.spec_total_mobility(cell),
                            );
                            Ok(fx_div_spec(num, denom) as i64)
                        }
                    }
                }
            }
        }
    }

    /// Peaceman productivity index of a well completed in the given
    /// cell [m^3/(day*bar)]: C * 2 pi * sqrt(kx ky) * dz * lambda_t over
    /// ln(r_eq / r_w) + skin, with the anisotropic equivalent radius
    /// r_eq. Rejects non-positive permeability, a non-positive wellbore
    /// radius, an equivalent radius at or below the wellbore radius, a
    /// vanished geometric mean, and a vanishing denominator, exactly as
    /// `spec_well_pi` lays out.
    pub fn calculate_well_productivity_index(
        &self,
        cell: &GridCell,
        well_radius: i64,
        skin: i64,
    ) -> (r: Result<i64, WellError>)
        requires
            self.wf(),
            cell.inv(),
        ensures
            r == self.spec_well_pi(*cell, well_radius as int, skin as int),
            (cell.perm_x <= 0 || cell.perm_y <= 0) <==> r == Result::<i64, WellError>::Err(
                WellError::PermeabilityNotPositive,
            ),
            cell.perm_x > 0 && cell.perm_y > 0 && well_radius <= 0 ==> r == Result::<
                i64,
                WellError,
            >::Err(WellError::RadiusNotPositive),
    {
        let kx: i64 = cell.perm_x;
        let ky: i64 = cell.perm_y;
        if kx <= 0 || ky <= 0 {
            return Err(WellError::PermeabilityNotPositive);
        }
        if well_radius <= 0 {
            return Err(WellError::RadiusNotPositive);
        }
        let ratio_xy: i64 = fx_div(kx, ky);
        let ratio_yx: i64 = fx_div(ky, kx);
        let sqrt_xy: i64 = fx_sqrt(ratio_xy);
        let sqrt_yx: i64 = fx_sqrt(ratio_yx);
        let quart_xy: i64 = fx_sqrt(sqrt_xy);
        let quart_yx: i64 = fx_sqrt(sqrt_yx);
        let dx2: i64 = fx_mul(self.dx, self.dx);
        let dy2: i64 = fx_mul(self.dy, self.dy);
        let mix: i64 = fx_add(fx_mul(sqrt_xy, dx2), fx_mul(sqrt_yx, dy2));
        let root_mix: i64 = fx_sqrt(mix);
        let quart_sum: i64 = fx_add(quart_xy, quart_yx);
        if quart_sum <= 0 {
            return Err(WellError::EquivalentRadiusNotPositive);
        }
        let r_eq: i64 = fx_scale(fx_div(root_mix, quart_sum), 28, 100);
        if r_eq <= 0 {
            return Err(WellError::EquivalentRadiusNotPositive);
        }
        if r_eq <= well_radius {
            return Err(WellError::EquivalentRadiusTooSmall);
        }
        let k_avg: i64 = fx_sqrt(fx_mul(kx, ky));
        if k_avg <= 0 {
            return Err(WellError::AveragePermeabilityZero);
        }
        let total_mobility: i64 = self.total_mobility(cell);
        let rad_ratio: i64 = fx_div(r_eq, well_radius);
        proof {
            lemma_fx_div_ge_one(r_eq as int, well_radius as int);
        }
        let ln_ratio: i64 = fx_ln(rad_ratio);
        let denom: i64 = fx_add(ln_ratio, skin);
        if denom == 0 {
            return Err(WellError::SingularPiDenominator);
        }
        let c: i64 = fx_mul(C_TRANS, TWO_PI_FX);
        let num: i64 = fx_mul(fx_mul(fx_mul(c, k_avg), self.dz), total_mobility);
        Ok(fx_div(num, denom))
    }

    /// The dynamically refreshed state of one well: its index replaced
    /// by the Peaceman evaluation against its host cell when that
    /// evaluation succeeds non-negatively, the well unchanged otherwise.
    pub open spec fn spec_refreshed_well(self, w: Well) -> Well {
        let cell = self.grid_cells@[self.flat_idx(w.i as int, w.j as int, w.k as int)];
        match self.spec_well_pi(cell, w.well_radius as int, w.skin as int) {
            Ok(pi) => if pi >= 0 {
                Well { productivity_index: pi, ..w }
            } else {
                w
            },
            Err(_) => w,
        }
    }

    /// Re-evaluates every well's productivity index from its current
    /// host cell; a well whose evaluation fails or comes back negative
    /// keeps its previous index. Nothing else changes.
    pub fn update_dynamic_well_productivity_indices(&mut self)
        requires
            old(self).wf(),
        ensures
            final(self).wf(),
            crate::sim::same_but_wells(*old(self), *final(self)),
            final(self).wells@.len() == old(self).wells@.len(),
            forall|w: int|
                0 <= w < old(self).wells@.len() ==> (#[trigger] final(self).wells@[w]) == old(
                    self,
                ).spec_refreshed_well(old(self).wells@[w]),
    {
        let n: usize = self.wells.len();
        let mut w: usize = 0;
        while w < n
            invariant
                w <= n,
                old(self).wf(),
                self.wf(),
                n == self.wells@.len(),
                n == old(self).wells@.len(),
                crate::sim::same_but_wells(*old(self), *self),
                forall|q: int|
                    0 <= q < w ==> (#[trigger] self.wells@[q]) == old(self).spec_refreshed_well(
                        old(self).wells@[q],
                    ),
                forall|q: int| w <= q < n ==> self.wells@[q] == old(self).wells@[q],
            decreases n - w,
        {
            let well: Well = self.wells[w];
            let id: usize = self.idx(well.i, well.j, well.k);
            let cell: GridCell = self.grid_cells[id];
            let maybe_pi: Result<i64, WellError> = self.calculate_well_productivity_index(
                &cell,
                well.well_radius,
                well.skin,
            );
            match maybe_pi {
                Ok(pi) => {
                    if pi >= 0 {
                        self.wells.set(w, Well { productivity_index: pi, ..well });
                    }
                },
                Err(_) => {},
            }
            w = w + 1;
        }
    }
}

impl ReservoirSimulator {
    /// Adds a well completed in cell (i, j, k), deriving its Peaceman
    /// productivity index from the current host cell. A violated check
    /// rejects the call and leaves the well list untouched.
    pub fn add_well(
        &mut self,
        i: usize,
        j: usize,
        k: usize,
        bhp: i64,
        well_radius: i64,
        skin: i64,
        injector: bool,
    ) -> (r: Result<(), WellError>)
        requires
            old(self).wf(),
        ensures
            final(self).wf(),
            r is Err ==> *final(self) == *old(self),
            i >= old(self).nx ==> r == Result::<(), WellError>::Err(WellError::IndexIOutOfBounds),
            i < old(self).nx && j >= old(self).ny ==> r == Result::<(), WellError>::Err(
                WellError::IndexJOutOfBounds,
            ),
            i < old(self).nx && j < old(self).ny && k >= old(self).nz ==> r == Result::<
                (),
                WellError,
            >::Err(WellError::IndexKOutOfBounds),
            r is Ok ==> crate::sim::same_but_wells(*old(self), *final(self)) && final(self).wells@.len() == old(self).wells@.len() + 1 && final(self).wells@.subrange(
                0,
                old(self).wells@.len() as int,
            ) == old(self).wells@,
            r is Ok ==> ({
                let w = final(self).wells@.last();
                w.i == i && w.j == j && w.k == k && w.bhp == bhp && w.well_radius == well_radius
                    && w.skin == skin && w.injector == injector && w.productivity_index >= 0
                    && Result::<i64, WellError>::Ok(w.productivity_index) == old(
                    self,
                ).spec_well_pi(
                    old(self).grid_cells@[old(self).flat_idx(i as int, j as int, k as int)],
                    well_radius as int,
                    skin as int,
                )
            }),
    {
        if i >= self.nx {
            return Err(WellError::IndexIOutOfBounds);
        }
        if j >= self.ny {
            return Err(WellError::IndexJOutOfBounds);
        }
        if k >= self.nz {
            return Err(WellError::IndexKOutOfBounds);
        }
        if self.wells.len() >= crate::sim::MAX_WELLS {
            return Err(WellError::TooManyWells);
        }
        let cell_id: usize = self.idx(i, j, k);
        let cell: GridCell = self.grid_cells[cell_id];
        let pi: i64 = match self.calculate_well_productivity_index(&cell, well_radius, skin) {
            Ok(v) => v,
            Err(e) => {
                return Err(e);
            },
        };
        let well: Well = Well {
            i,
            j,
            k,
            bhp,
            productivity_index: pi,
            injector,
            well_radius,
            skin,
        };
        match well.validate(self.nx, self.ny, self.nz) {
            Ok(()) => {},
            Err(e) => {
                return Err(e);
            },
        }
        let ghost old_wells = self.wells@;
        self.wells.push(well);
        proof {
            assert(self.wells@.subrange(0, old_wells.len() as int) =~= old_wells);
        }
        Ok(())
    }
}

/// Injectors among the first n wells.
pub open spec fn count_injectors(ws: Seq<Well>, n: int) -> int
    decreases n,
{
    if n <= 0 {
        0
    } else {
        count_injectors(ws, n - 1) + if ws[n - 1].injector {
            1int
        } else {
            0int
        }
    }
}

/// Producers among the first n wells.
pub open spec fn count_producers(ws: Seq<Well>, n: int) -> int
    decreases n,
{
    if n <= 0 {
        0
    } else {
        count_producers(ws, n - 1) + if ws[n - 1].injector {
            0int
        } else {
            1int
        }
    }
}

impl ReservoirSimulator {
    /// How many wells are injectors.
    pub fn injector_well_count(&self) -> (r: usize)
        ensures
            r as int == count_injectors(self.wells@, self.wells@.len() as int),
            r <= self.wells@.len(),
    {
        let n: usize = self.wells.len();
        let mut count: usize = 0;
        let mut w: usize = 0;
        while w < n
            invariant
                w <= n,
                n == self.wells@.len(),
                count <= w,
                count as int == count_injectors(self.wells@, w as int),
            decreases n - w,
        {
            if self.wells[w].injector {
                count = count + 1;
            }
            w = w + 1;
        }
        count
    }

    /// How many wells are producers.
    pub fn producer_well_count(&self) -> (r: usize)
        ensures
            r as int == count_producers(self.wells@, self.wells@.len() as int),
            r <= self.wells@.len(),
    {
        let n: usize = self.wells.len();
        let mut count: usize = 0;
        let mut w: usize = 0;
        while w < n
            invariant
                w <= n,
                n == self.wells@.len(),
                count <= w,
                count as int == count_producers(self.wells@, w as int),
            decreases n - w,
        {
            if !self.wells[w].injector {
                count = count + 1;
            }
            w = w + 1;
        }
        count
    }

    /// The signed target rate of a well under rate control: the role's
    /// total target split evenly over the role's wells, injection
    /// negated; zero for a disabled injector or an empty role; nothing
    /// when the role is pressure-controlled.
    pub open spec fn spec_target_rate(self, w: Well) -> Option<i64> {
        if w.injector && !self.injector_enabled {
            Some(0i64)
        } else {
            let rate_ctl = if w.injector {
                self.injector_control is Rate
            } else {
                self.producer_control is Rate
            };
            if rate_ctl {
                if w.injector {
                    let n = count_injectors(self.wells@, self.wells@.len() as int);
                    if n == 0 {
                        Some(0i64)
                    } else {
                        Some((0 - (self.target_injector_rate_m3_day as int) / n) as i64)
                    }
                } else {
                    let n = count_producers(self.wells@, self.wells@.len() as int);
                    if n == 0 {
                        Some(0i64)
                    } else {
                        Some(((self.target_producer_rate_m3_day as int) / n) as i64)
                    }
                }
            } else {
                None
            }
        }
    }

    /// Computes `spec_target_rate` for a well.
    pub fn target_rate_m3_day(&self, well: &Well) -> (r: Option<i64>)
        requires
            self.wf(),
        ensures
            r == self.spec_target_rate(*well),
    {
        if well.injector && !self.injector_enabled {
            return Some(0);
        }
        let use_rate_control: bool = if well.injector {
            matches!(self.injector_control, WellControlMode::Rate)
        } else {
            matches!(self.producer_control, WellControlMode::Rate)
        };
        if !use_rate_control {
            return None;
        }
        if well.injector {
            let n_inj: usize = self.injector_well_count();
            if n_inj == 0 {
                return Some(0);
            }
            proof {
                lemma_count_injectors_bounds(self.wells@, self.wells@.len() as int);
            }
            let share: u64 = (self.target_injector_rate_m3_day as u64) / (n_inj as u64);
            return Some(0i64 - (share as i64));
        }
        let n_prod: usize = self.producer_well_count();
        if n_prod == 0 {
            return Some(0);
        }
        proof {
            lemma_count_producers_bounds(self.wells@, self.wells@.len() as int);
        }
        let share: u64 = (self.target_producer_rate_m3_day as u64) / (n_prod as u64);
        Some(share as i64)
    }

    /// The control decision for a well at an evaluated cell pressure:
    /// a disabled injector idles; a rate-controlled well with no
    /// productivity takes its raw target; one whose implied bottom-hole
    /// pressure leaves [well_bhp_min, well_bhp_max] silently switches to
    /// pressure control at the clamped limit; a pressure-controlled
    /// well keeps its own bottom-hole pressure.
    pub open spec fn spec_resolve_well_control(self, w: Well, pressure_bar: i64) -> Option<
        WellControlDecision,
    > {
        if w.injector && !self.injector_enabled {
            Some(WellControlDecision::Disabled)
        } else {
            let rate_ctl = if w.injector {
                self.injector_control is Rate
            } else {
                self.producer_control is Rate
            };
            if rate_ctl {
                match self.spec_target_rate(w) {
                    None => None,
                    Some(q) => {
                        if w.productivity_index <= 0 {
                            Some(WellControlDecision::Rate { q_m3_day: q })
                        } else {
                            let implied = sat_i64(
                                pressure_bar - fx_div_spec(
                                    q as int,
                                    w.productivity_index as int,
                                ),
                            );
                            let constrained = crate::fixed::clamp_spec(
                                implied,
                                self.well_bhp_min as int,
                                self.well_bhp_max as int,
                            );
                            if constrained != implied {
                                Some(WellControlDecision::Bhp { bhp_bar: constrained as i64 })
                            } else {
                                Some(WellControlDecision::Rate { q_m3_day: q })
                            }
                        }
                    },
                }
            } else {
                Some(WellControlDecision::Bhp { bhp_bar: w.bhp })
            }
        }
    }

    /// Computes `spec_resolve_well_control` for a well.
    pub fn resolve_well_control(&self, well: &Well, pressure_bar: i64) -> (r: Option<
        WellControlDecision,
    >)
        requires
            self.wf(),
        ensures
            r == self.spec_resolve_well_control(*well, pressure_bar),
    {
        if well.injector && !self.injector_enabled {
            return Some(WellControlDecision::Disabled);
        }
        let use_rate_control: bool = if well.injector {
            matches!(self.injector_control, WellControlMode::Rate)
        } else {
            matches!(self.producer_control, WellControlMode::Rate)
        };
        if use_rate_control {
            let q_target: i64 = match self.target_rate_m3_day(well) {
                Some(q) => q,
                None => {
                    return None;
                },
            };
            if well.productivity_index <= 0 {
                return Some(WellControlDecision::Rate { q_m3_day: q_target });
            }
            let implied_bhp: i64 = fx_sub(
                pressure_bar,
                fx_div(q_target, well.productivity_index),
            );
            let constrained_bhp: i64 = fx_clamp(implied_bhp, self.well_bhp_min, self.well_bhp_max);
            if constrained_bhp != implied_bhp {
                return Some(WellControlDecision::Bhp { bhp_bar: constrained_bhp });
            }
            return Some(WellControlDecision::Rate { q_m3_day: q_target });
        }
        Some(WellControlDecision::Bhp { bhp_bar: well.bhp })
    }

    /// The volumetric rate a well exchanges at an evaluated pressure
    /// [m^3/day], positive for production: zero when disabled, the
    /// target under rate control, and PI * (p - BHP) under pressure
    /// control.
    pub open spec fn spec_well_rate(self, w: Well, pressure_bar: i64) -> Option<i64> {
        match self.spec_resolve_well_control(w, pressure_bar) {
            None => None,
            Some(WellControlDecision::Disabled) => Some(0i64),
            Some(WellControlDecision::Rate { q_m3_day }) => Some(q_m3_day),
            Some(WellControlDecision::Bhp { bhp_bar }) => Some(
                fx_mul_spec(w.productivity_index as int, sat_i64(pressure_bar - bhp_bar)) as i64,
            ),
        }
    }

    /// Computes `spec_well_rate` for a well.
    pub fn well_rate_m3_day(&self, well: &Well, pressure_bar: i64) -> (r: Option<i64>)
        requires
            self.wf(),
        ensures
            r == self.spec_well_rate(*well, pressure_bar),
    {
        match self.resolve_well_control(well, pressure_bar) {
            None => None,
            Some(WellControlDecision::Disabled) => Some(0),
            Some(WellControlDecision::Rate { q_m3_day }) => Some(q_m3_day),
            Some(WellControlDecision::Bhp { bhp_bar }) => Some(
                fx_mul(well.productivity_index, fx_sub(pressure_bar, bhp_bar)),
            ),
        }
    }
}

/// The control resolution always reaches a decision, and any decision
/// it reaches keeps the bottom-hole pressure physical: a fallback from
/// rate control is clamped into the configured pressure window, while a
/// pressure-controlled well keeps its own validated bottom-hole value.
pub proof fn lemma_well_control_sound(s: ReservoirSimulator, w: Well, pressure_bar: i64)
    requires
        s.wf(),
        w.valid_for(s.nx as int, s.ny as int, s.nz as int),
    ensures
        s.spec_resolve_well_control(w, pressure_bar) is Some,
        match s.spec_resolve_well_control(w, pressure_bar) {
            Some(WellControlDecision::Bhp { bhp_bar }) => (s.well_bhp_min <= bhp_bar
                <= s.well_bhp_max) || bhp_bar == w.bhp,
            _ => true,
        },
{
}

/// The injector count lies between zero and the list length.
pub proof fn lemma_count_injectors_bounds(ws: Seq<Well>, n: int)
    requires
        0 <= n <= ws.len(),
    ensures
        0 <= count_injectors(ws, n) <= n,
    decreases n,
{
    if n > 0 {
        lemma_count_injectors_bounds(ws, n - 1);
    }
}

/// The producer count lies between zero and the list length.
pub proof fn lemma_count_producers_bounds(ws: Seq<Well>, n: int)
    requires
        0 <= n <= ws.len(),
    ensures
        0 <= count_producers(ws, n) <= n,
    decreases n,
{
    if n > 0 {
        lemma_count_producers_bounds(ws, n - 1);
    }
}

impl ReservoirSimulator {
    /// Recovers the (i, j, k) coordinate of a flat cell index.
    fn cell_coords(&self, id: usize) -> (r: (usize, usize, usize))
        requires
            self.wf(),
            id < self.grid_cells@.len(),
        ensures
            r.0 < self.nx,
            r.1 < self.ny,
            r.2 < self.nz,
            self.flat_idx(r.0 as int, r.1 as int, r.2 as int) == id as int,
            r.0 as int == coord_i(*self, id as int),
            r.1 as int == coord_j(*self, id as int),
            r.2 as int == coord_k(*self, id as int),
    {
        proof {
            crate::sim::lemma_grid_products(self.nx as int, self.ny as int, self.nz as int);
        }
        let layer: usize = self.nx * self.ny;
        let k: usize = id / layer;
        let rem: usize = id % layer;
        let j: usize = rem / self.nx;
        let i: usize = rem % self.nx;
        proof {
            lemma_cell_coords(id as int, self.nx as int, self.ny as int, self.nz as int);
        }
        (i, j, k)
    }

    /// Assembles the implicit pressure system A, the right-hand side b,
    /// and the Jacobi preconditioner diagonal for one sub-step of the
    /// given length: per cell the compressive accumulation, the six-face
    /// transmissibilities with their gravity sources, and the resolved
    /// well couplings.
    #[verifier::rlimit(60)]
    fn assemble_pressure_system(&self, dt_days: i64) -> (r: (
        crate::solver::CsrMatrix,
        Vec<i64>,
        Vec<i64>,
    ))
        requires
            self.wf(),
            dt_days > 0,
        ensures
            r.0.wf(),
            r.0.n == self.grid_cells@.len(),
            r.1@.len() == self.grid_cells@.len(),
            r.2@.len() == self.grid_cells@.len(),
            forall|q: int| 0 <= q < r.0.n ==> #[trigger] row_diag_last(
                r.0.row_ptr@,
                r.0.col_idx@,
                q,
            ),
    {
        let n: usize = self.grid_cells.len();
        proof {
            crate::sim::lemma_grid_products(self.nx as int, self.ny as int, self.nz as int);
        }
        let layer: usize = self.nx * self.ny;
        let mut row_ptr: Vec<usize> = Vec::new();
        row_ptr.push(0);
        let mut col_idx: Vec<usize> = Vec::new();
        let mut values: Vec<i64> = Vec::new();
        let mut b: Vec<i64> = Vec::new();
        let mut diag_inv: Vec<i64> = Vec::new();
        let mut id: usize = 0;
        while id < n
            invariant
                id <= n,
                self.wf(),
                dt_days > 0,
                n == self.grid_cells@.len(),
                layer == self.nx * self.ny,
                row_ptr@.len() == id + 1,
                row_ptr@[0] == 0,
                forall|r: int| 0 <= r < id ==> #[trigger] row_ptr@[r] <= row_ptr@[r + 1],
                forall|r: int| 0 <= r < id ==> #[trigger] row_diag_last(row_ptr@, col_idx@, r),
                forall|r: int| 0 <= r <= id ==> #[trigger] row_ptr@[r] <= values@.len(),
                row_ptr@[id as int] == values@.len(),
                col_idx@.len() == values@.len(),
                forall|e: int| 0 <= e < col_idx@.len() ==> #[trigger] col_idx@[e] < n,
                b@.len() == id,
                diag_inv@.len() == id,
                values@.len() <= 7 * id,
            decreases n - id,
        {
            let ghost rp_at_entry = row_ptr@;
            let ghost ci_at_entry = col_idx@;
            let (i, j, k): (usize, usize, usize) = self.cell_coords(id);
            let cell: GridCell = self.grid_cells[id];
            let vp: i64 = cell.pore_volume_m3(self.dx, self.dy, self.dz);
            let c_t: i64 = fx_add(
                fx_add(fx_mul(self.pvt.c_o, cell.sat_oil), fx_mul(self.pvt.c_w, cell.sat_water)),
                self.rock_compressibility,
            );
            let accum: i64 = fx_div(fx_mul(vp, c_t), dt_days);
            let mut diag: i64 = accum;
            let mut rhs: i64 = fx_mul(accum, cell.pressure);
            let ghost entries_before = values@.len();
            if i > 0 {
                proof {
                    lemma_neighbor_x(
                        self.nx as int,
                        self.ny as int,
                        self.nz as int,
                        i as int,
                        j as int,
                        k as int,
                        id as int,
                    );
                }
                let n_id: usize = id - 1;
                let (t, tg): (i64, i64) = self.face_coupling(&cell, n_id, Axis::X, k, k);
                diag = fx_add(diag, t);
                rhs = fx_add(rhs, tg);
                col_idx.push(n_id);
                values.push(0 - t);
            }
            if i < self.nx - 1 {
                proof {
                    lemma_neighbor_x(
                        self.nx as int,
                        self.ny as int,
                        self.nz as int,
                        i as int,
                        j as int,
                        k as int,
                        id as int,
                    );
                }
                let n_id: usize = id + 1;
                let (t, tg): (i64, i64) = self.face_coupling(&cell, n_id, Axis::X, k, k);
                diag = fx_add(diag, t);
                rhs = fx_add(rhs, tg);
                col_idx.push(n_id);
                values.push(0 - t);
            }
            if j > 0 {
                proof {
                    lemma_neighbor_y(
                        self.nx as int,
                        self.ny as int,
                        self.nz as int,
                        i as int,
                        j as int,
                        k as int,
                        id as int,
                    );
                }
                let n_id: usize = id - self.nx;
                let (t, tg): (i64, i64) = self.face_coupling(&cell, n_id, Axis::Y, k, k);
                diag = fx_add(diag, t);
                rhs = fx_add(rhs, tg);
                col_idx.push(n_id);
                values.push(0 - t);
            }
            if j < self.ny - 1 {
                proof {
                    lemma_neighbor_y(
                        self.nx as int,
                        self.ny as int,
                        self.nz as int,
                        i as int,
                        j as int,
                        k as int,
                        id as int,
                    );
                }
                let n_id: usize = id + self.nx;
                let (t, tg): (i64, i64) = self.face_coupling(&cell, n_id, Axis::Y, k, k);
                diag = fx_add(diag, t);
                rhs = fx_add(rhs, tg);
                col_idx.push(n_id);
                values.push(0 - t);
            }
            if k > 0 {
                proof {
                    lemma_neighbor_z(
                        self.nx as int,
                        self.ny as int,
                        self.nz as int,
                        i as int,
                        j as int,
                        k as int,
                        id as int,
                    );
                }
                let n_id: usize = id - layer;
                let (t, tg): (i64, i64) = self.face_coupling(&cell, n_id, Axis::Z, k, k - 1);
                diag = fx_add(diag, t);
                rhs = fx_add(rhs, tg);
                col_idx.push(n_id);
                values.push(0 - t);
            }
            if k < self.nz - 1 {
                proof {
                    lemma_neighbor_z(
                        self.nx as int,
                        self.ny as int,
                        self.nz as int,
                        i as int,
                        j as int,
                        k as int,
                        id as int,
                    );
                }
                let n_id: usize = id + layer;
                let (t, tg): (i64, i64) = self.face_coupling(&cell, n_id, Axis::Z, k, k + 1);
                diag = fx_add(diag, t);
                rhs = fx_add(rhs, tg);
                col_idx.push(n_id);
                values.push(0 - t);
            }
            let wn: usize = self.wells.len();
            let mut w: usize = 0;
            while w < wn
                invariant
                    w <= wn,
                    self.wf(),
                    wn == self.wells@.len(),
                decreases wn - w,
            {
                let well: Well = self.wells[w];
                if well.i == i && well.j == j && well.k == k {
                    match self.resolve_well_control(&well, cell.pressure) {
                        None => {},
                        Some(WellControlDecision::Disabled) => {},
                        Some(WellControlDecision::Rate { q_m3_day }) => {
                            rhs = fx_sub(rhs, q_m3_day);
                        },
                        Some(WellControlDecision::Bhp { bhp_bar }) => {
                            diag = fx_add(diag, well.productivity_index);
                            rhs = fx_add(rhs, fx_mul(well.productivity_index, bhp_bar));
                        },
                    }
                }
                w = w + 1;
            }
            col_idx.push(id);
            values.push(diag);
            row_ptr.push(values.len());
            b.push(rhs);
            proof {
                assert forall|r: int|
                    0 <= r < id + 1 implies #[trigger] row_diag_last(row_ptr@, col_idx@, r) by {
                    if r < id {
                        assert(row_diag_last(rp_at_entry, ci_at_entry, r));
                        assert(row_ptr@[r] == rp_at_entry[r]);
                        assert(row_ptr@[r + 1] == rp_at_entry[r + 1]);
                        assert(col_idx@[rp_at_entry[r + 1] - 1] == ci_at_entry[rp_at_entry[r + 1]
                            - 1]);
                    } else {
                        assert(col_idx@[row_ptr@[id + 1] - 1] == id);
                    }
                }
            }
            diag_inv.push(
                if diag != 0 {
                    fx_div(FX_ONE, diag)
                } else {
                    FX_ONE
                },
            );
            id = id + 1;
        }
        let m: crate::solver::CsrMatrix = crate::solver::CsrMatrix { n, row_ptr, col_idx, values };
        (m, b, diag_inv)
    }

    /// The implicit coupling of one face: the upstream transmissibility
    /// from the committed pressures, and its gravity source term.
    fn face_coupling(&self, cell: &GridCell, n_id: usize, axis: Axis, k: usize, n_k: usize) -> (r:
        (i64, i64))
        requires
            self.wf(),
            cell.inv(),
            n_id < self.grid_cells@.len(),
            k < self.nz,
            n_k < self.nz,
        ensures
            0 <= r.0,
    {
        let depth_i: i64 = self.depth_at_k(k);
        let depth_j: i64 = self.depth_at_k(n_k);
        let rho: i64 = self.total_density_face(cell, &self.grid_cells[n_id]);
        let grav: i64 = self.gravity_head_bar(depth_i, depth_j, rho);
        let t: i64 = self.transmissibility_with_prev_pressure(
            cell,
            &self.grid_cells[n_id],
            axis,
            grav,
        );
        (t, fx_mul(t, grav))
    }
}

/// The magnitude bound of every `i64`, two to the sixty-third.
pub const MAG63: i128 = 9_223_372_036_854_775_808;

/// Bound under which the flux accumulators are handed onward.
pub const DELTA_CAP: i128 = 1_000_000_000_000_000_000_000_000_000;

/// Exact sum of the first n wide entries.
pub open spec fn sum_i128(s: Seq<i128>, n: int) -> int
    decreases n,
{
    if n <= 0 {
        0
    } else {
        sum_i128(s, n - 1) + s[n - 1]
    }
}

/// The sum only reads the summed prefix.
pub proof fn lemma_sum_congruent(s1: Seq<i128>, s2: Seq<i128>, n: int)
    requires
        forall|q: int| 0 <= q < n ==> s1[q] == s2[q],
    ensures
        sum_i128(s1, n) == sum_i128(s2, n),
    decreases n,
{
    if n > 0 {
        lemma_sum_congruent(s1, s2, n - 1);
    }
}

/// Overwriting one summed entry shifts the sum by the difference.
pub proof fn lemma_sum_update(s: Seq<i128>, n: int, i: int, v: i128)
    requires
        0 <= i < n,
        n <= s.len(),
    ensures
        sum_i128(s.update(i, v), n) == sum_i128(s, n) - s[i] + v,
    decreases n,
{
    if i == n - 1 {
        lemma_sum_congruent(s.update(i, v), s, n - 1);
    } else {
        lemma_sum_update(s, n - 1, i, v);
    }
}

/// A fixed-point quotient of a smaller non-negative value by a larger
/// positive one stays inside the unit interval.
pub proof fn lemma_fx_div_unit_frac(a: int, b: int)
    by (nonlinear_arith)
    requires
        0 < a <= b,
    ensures
        0 <= fx_div_spec(a, b) <= FX_ONE,
{
}

/// The pore volume of a cell under the simulator's geometry [m^3].
pub open spec fn spec_pore_volume(s: ReservoirSimulator, c: GridCell) -> int {
    fx_mul_spec(
        fx_mul_spec(fx_mul_spec(s.dx as int, s.dy as int), s.dz as int),
        c.porosity as int,
    )
}

/// Largest saturation excursion |delta / Vp| over the first n cells
/// with positive pore volume.
pub open spec fn spec_max_sat_change(s: ReservoirSimulator, delta: Seq<i128>, n: int) -> int
    decreases n,
{
    if n <= 0 {
        0
    } else {
        let prev = spec_max_sat_change(s, delta, n - 1);
        let vp = spec_pore_volume(s, s.grid_cells@[n - 1]);
        if vp > 0 {
            let sc = sat_i64(iabs(fx_div_spec(delta[n - 1] as int, vp)));
            if sc > prev {
                sc
            } else {
                prev
            }
        } else {
            prev
        }
    }
}

/// Largest pressure excursion |p_new - p_old| over the first n cells.
pub open spec fn spec_max_press_change(s: ReservoirSimulator, p_new: Seq<i64>, n: int) -> int
    decreases n,
{
    if n <= 0 {
        0
    } else {
        let prev = spec_max_press_change(s, p_new, n - 1);
        let dp = sat_i64(iabs(sat_i64(p_new[n - 1] - s.grid_cells@[n - 1].pressure)));
        if dp > prev {
            dp
        } else {
            prev
        }
    }
}

/// The rate a well would exchange, with a failed resolution counted as
/// zero.
pub open spec fn spec_well_rate_or_zero(s: ReservoirSimulator, w: Well, p: i64) -> int {
    match s.spec_well_rate(w, p) {
        Some(q) => q as int,
        None => 0,
    }
}

/// Largest relative well-rate excursion |q_new - q_old| / (|q_old| + 1)
/// over the first n wells, comparing the committed and the solved
/// pressures of each well's host cell.
pub open spec fn spec_max_rate_change(s: ReservoirSimulator, p_new: Seq<i64>, n: int) -> int
    decreases n,
{
    if n <= 0 {
        0
    } else {
        let prev = spec_max_rate_change(s, p_new, n - 1);
        let w = s.wells@[n - 1];
        let id = s.flat_idx(w.i as int, w.j as int, w.k as int);
        let q_old = spec_well_rate_or_zero(s, w, s.grid_cells@[id].pressure);
        let q_new = spec_well_rate_or_zero(s, w, p_new[id]);
        let rel = fx_div_spec(
            sat_i64(iabs(sat_i64(q_new - q_old))),
            sat_i64(sat_i64(iabs(q_old)) + FX_ONE),
        );
        if rel > prev {
            rel
        } else {
            prev
        }
    }
}

/// The six per-step rate totals over the first n wells, in the order
/// (produced oil surface, produced liquid surface, produced liquid
/// reservoir, injected surface, injected reservoir, produced water
/// reservoir), each accumulated with saturating fixed-point steps as
/// the recorder computes them.
pub open spec fn spec_rate_totals(s: ReservoirSimulator, p_new: Seq<i64>, n: int) -> (
    int,
    int,
    int,
    int,
    int,
    int,
)
    decreases n,
{
    if n <= 0 {
        (0int, 0int, 0int, 0int, 0int, 0int)
    } else {
        let prev = spec_rate_totals(s, p_new, n - 1);
        let w = s.wells@[n - 1];
        let id = s.flat_idx(w.i as int, w.j as int, w.k as int);
        match s.spec_well_rate(w, p_new[id]) {
            None => prev,
            Some(q) => {
                if w.injector {
                    (
                        prev.0,
                        prev.1,
                        prev.2,
                        sat_i64(prev.3 - fx_div_spec(q as int, s.b_w as int)),
                        sat_i64(prev.4 - q),
                        prev.5,
                    )
                } else {
                    let fw = s.spec_frac_flow(s.grid_cells@[id]);
                    let oil_rate = fx_div_spec(fx_mul_spec(q as int, FX_ONE - fw), s.b_o as int);
                    let water_rate = fx_div_spec(fx_mul_spec(q as int, fw), s.b_w as int);
                    (
                        sat_i64(prev.0 + oil_rate),
                        sat_i64(prev.1 + sat_i64(oil_rate + water_rate)),
                        sat_i64(prev.2 + q),
                        prev.3,
                        prev.4,
                        sat_i64(prev.5 + fx_mul_spec(q as int, fw)),
                    )
                }
            },
        }
    }
}

/// Exact sum of the first n cell pressures.
pub open spec fn spec_press_sum(cells: Seq<GridCell>, n: int) -> int
    decreases n,
{
    if n <= 0 {
        0
    } else {
        spec_press_sum(cells, n - 1) + cells[n - 1].pressure
    }
}

/// Exact sum of the first n cell water saturations.
pub open spec fn spec_sat_sum(cells: Seq<GridCell>, n: int) -> int
    decreases n,
{
    if n <= 0 {
        0
    } else {
        spec_sat_sum(cells, n - 1) + cells[n - 1].sat_water
    }
}

/// One admissibility factor: the limit over the excursion where the
/// excursion exceeds the limit, one otherwise.
pub open spec fn spec_factor(limit: int, excursion: int) -> int {
    if excursion > limit {
        fx_div_spec(limit, excursion)
    } else {
        FX_ONE as int
    }
}

/// The admissibility factor of one tentative sub-step: the least of the
/// saturation, pressure and well-rate factors, clamped into
/// [0.01, 1.0].
pub open spec fn spec_stable_factor(s: ReservoirSimulator, p_new: Seq<i64>, delta: Seq<i128>) -> int {
    let f_sat = spec_factor(
        s.max_sat_change_per_step as int,
        spec_max_sat_change(s, delta, s.grid_cells@.len() as int),
    );
    let f_press = spec_factor(
        s.max_pressure_change_per_step as int,
        spec_max_press_change(s, p_new, s.grid_cells@.len() as int),
    );
    let f_rate = spec_factor(
        s.max_well_rate_change_fraction as int,
        spec_max_rate_change(s, p_new, s.wells@.len() as int),
    );
    let m1 = if f_press < f_sat {
        f_press
    } else {
        f_sat
    };
    let m2 = if f_rate < m1 {
        f_rate
    } else {
        m1
    };
    crate::fixed::clamp_spec(m2, 10_000_000, FX_ONE as int)
}

/// The x coordinate of a flat cell index.
pub open spec fn coord_i(s: ReservoirSimulator, c: int) -> int {
    (c % ((s.nx * s.ny) as int)) % (s.nx as int)
}

/// The y coordinate of a flat cell index.
pub open spec fn coord_j(s: ReservoirSimulator, c: int) -> int {
    (c % ((s.nx * s.ny) as int)) / (s.nx as int)
}

/// The z coordinate of a flat cell index.
pub open spec fn coord_k(s: ReservoirSimulator, c: int) -> int {
    c / ((s.nx * s.ny) as int)
}

/// The water budget of one cell from the faces already processed: the
/// sweep walks cells in index order and each face toward a higher
/// index debits its lower cell and credits its higher cell, so a cell
/// below the front has paid all its outgoing faces, and any cell has
/// received a face from each lower neighbour below the front. With the
/// front at the cell count this is the cell's closed-form face budget.
pub open spec fn spec_face_budget(
    s: ReservoirSimulator,
    p_new: Seq<i64>,
    dt: int,
    c: int,
    front: int,
) -> int {
    let i = coord_i(s, c);
    let j = coord_j(s, c);
    let k = coord_k(s, c);
    let lx = s.nx as int;
    let ly = s.ny as int;
    let lz = s.nz as int;
    let layer = lx * ly;
    (if c < front {
        (if i < lx - 1 {
            -s.spec_face_water_flux(c, c + 1, Axis::X, k, k, p_new, dt)
        } else {
            0int
        }) + (if j < ly - 1 {
            -s.spec_face_water_flux(c, c + lx, Axis::Y, k, k, p_new, dt)
        } else {
            0int
        }) + (if k < lz - 1 {
            -s.spec_face_water_flux(c, c + layer, Axis::Z, k, k + 1, p_new, dt)
        } else {
            0int
        })
    } else {
        0int
    }) + (if i > 0 && c - 1 < front {
        s.spec_face_water_flux(c - 1, c, Axis::X, k, k, p_new, dt)
    } else {
        0int
    }) + (if j > 0 && c - lx < front {
        s.spec_face_water_flux(c - lx, c, Axis::Y, k, k, p_new, dt)
    } else {
        0int
    }) + (if k > 0 && c - layer < front {
        s.spec_face_water_flux(c - layer, c, Axis::Z, k - 1, k, p_new, dt)
    } else {
        0int
    })
}

/// The well contributions to the water budget of one cell, over the
/// first w wells: each resolved well withdraws its water rate times
/// the step length from its host cell, injectors carrying full water.
pub open spec fn spec_well_budget(
    s: ReservoirSimulator,
    p_new: Seq<i64>,
    dt: int,
    c: int,
    w: int,
) -> int
    decreases w,
{
    if w <= 0 {
        0
    } else {
        let prev = spec_well_budget(s, p_new, dt, c, w - 1);
        let well = s.wells@[w - 1];
        let id = s.flat_idx(well.i as int, well.j as int, well.k as int);
        if id != c {
            prev
        } else {
            match s.spec_well_rate(well, p_new[id]) {
                None => prev,
                Some(q) => {
                    let fw = if well.injector {
                        FX_ONE as int
                    } else {
                        s.spec_frac_flow(s.grid_cells@[id])
                    };
                    prev - fx_mul_spec(fx_mul_spec(q as int, fw), dt)
                },
            }
        }
    }
}

impl ReservoirSimulator {
    /// Water volume crossing one face toward the higher-indexed cell
    /// over the sub-step, as a specification value [m^3]:
    /// upstream-weighted advective flux from the solved potentials plus
    /// the capillary diffusion term, times the step length. Zero across
    /// a face without mobility.
    #[verifier::opaque]
    pub open spec fn spec_face_water_flux(
        self,
        id: int,
        nid: int,
        axis: Axis,
        k: int,
        n_k: int,
        p_new: Seq<i64>,
        dt: int,
    ) -> int {
        let p_i = p_new[id] as int;
        let p_j = p_new[nid] as int;
        let ci = self.grid_cells@[id];
        let cj = self.grid_cells@[nid];
        let rho = self.spec_face_density(ci, cj);
        let grav = self.spec_gravity_head(k, n_k, rho);
        let t = self.spec_transmissibility_upstream(ci, cj, axis, p_i, p_j, grav);
        let geom_t = fx_mul_spec(C_TRANS as int, self.spec_geom_trans(ci, cj, axis));
        let lam_w_avg = fx_scale_spec(
            sat_i64(self.spec_lambda_w(ci) + self.spec_lambda_w(cj)),
            1,
            2,
        );
        let lam_o_avg = fx_scale_spec(
            sat_i64(self.spec_lambda_o(ci) + self.spec_lambda_o(cj)),
            1,
            2,
        );
        let lam_t_avg = sat_i64(lam_w_avg + lam_o_avg);
        if lam_t_avg <= 0 {
            0
        } else {
            let total_flux = fx_mul_spec(t, sat_i64(sat_i64(p_i - p_j) - grav));
            let f_w = if total_flux >= 0 {
                self.spec_frac_flow(ci)
            } else {
                self.spec_frac_flow(cj)
            };
            let pc_i = self.pc.pc_spec(ci.sat_water as int, self.scal);
            let pc_j = self.pc.pc_spec(cj.sat_water as int, self.scal);
            let cap_mob = fx_div_spec(fx_mul_spec(lam_w_avg, lam_o_avg), lam_t_avg);
            let capillary = sat_i64(
                0 - fx_mul_spec(fx_mul_spec(geom_t, cap_mob), sat_i64(pc_i - pc_j)),
            );
            fx_mul_spec(sat_i64(fx_mul_spec(total_flux, f_w) + capillary), dt)
        }
    }

    /// Water volume crossing one face toward the higher-indexed cell
    /// over the sub-step [m^3]: upstream-weighted advective flux from
    /// the solved potentials plus the capillary diffusion term, times
    /// the step length. Zero across a face without mobility.
    fn face_water_flux(
        &self,
        id: usize,
        nid: usize,
        axis: Axis,
        k: usize,
        n_k: usize,
        p_new: &Vec<i64>,
        dt_days: i64,
    ) -> (dv: i64)
        requires
            self.wf(),
            id < self.grid_cells@.len(),
            nid < self.grid_cells@.len(),
            k < self.nz,
            n_k < self.nz,
            p_new@.len() == self.grid_cells@.len(),
        ensures
            dv as int == self.spec_face_water_flux(
                id as int,
                nid as int,
                axis,
                k as int,
                n_k as int,
                p_new@,
                dt_days as int,
            ),
    {
        proof {
            reveal(ReservoirSimulator::spec_face_water_flux);
        }
        let p_i: i64 = p_new[id];
        let p_j: i64 = p_new[nid];
        let depth_i: i64 = self.depth_at_k(k);
        let depth_j: i64 = self.depth_at_k(n_k);
        let ci: GridCell = self.grid_cells[id];
        let cj: GridCell = self.grid_cells[nid];
        let rho: i64 = self.total_density_face(&ci, &cj);
        let grav: i64 = self.gravity_head_bar(depth_i, depth_j, rho);
        let t: i64 = self.transmissibility_upstream(&ci, &cj, axis, p_i, p_j, grav);
        let geom_t: i64 = fx_mul(C_TRANS, self.geometric_transmissibility(&ci, &cj, axis));
        let (lam_w_i, lam_o_i): (i64, i64) = self.phase_mobilities(&ci);
        let (lam_w_j, lam_o_j): (i64, i64) = self.phase_mobilities(&cj);
        let lam_w_avg: i64 = fx_scale(fx_add(lam_w_i, lam_w_j), 1, 2);
        let lam_o_avg: i64 = fx_scale(fx_add(lam_o_i, lam_o_j), 1, 2);
        let lam_t_avg: i64 = fx_add(lam_w_avg, lam_o_avg);
        if lam_t_avg <= 0 {
            return 0;
        }
        let total_flux: i64 = fx_mul(t, fx_sub(fx_sub(p_i, p_j), grav));
        let f_w: i64 = if total_flux >= 0 {
            self.frac_flow_water(&ci)
        } else {
            self.frac_flow_water(&cj)
        };
        let pc_i: i64 = self.get_capillary_pressure(ci.sat_water);
        let pc_j: i64 = self.get_capillary_pressure(cj.sat_water);
        let cap_mob: i64 = fx_div(fx_mul(lam_w_avg, lam_o_avg), lam_t_avg);
        let capillary_flux: i64 = fx_sub(0, fx_mul(fx_mul(geom_t, cap_mob), fx_sub(pc_i, pc_j)));
        let water_flux: i64 = fx_add(fx_mul(total_flux, f_w), capillary_flux);
        fx_mul(water_flux, dt_days)
    }

    /// One tentative sub-step of the given length: assembles and solves
    /// the pressure system from the committed state, accumulates the
    /// per-cell water-volume deltas from the face fluxes and the wells,
    /// and derives the admissibility factor from the saturation,
    /// pressure and well-rate excursions.
    ///
    /// Without wells the face deltas cancel pairwise, so their total is
    /// exactly zero: the discrete water budget of the interior is
    /// conserved.
    fn calculate_fluxes(&self, delta_t_days: i64) -> (r: (
        Vec<i64>,
        Vec<i128>,
        i64,
        bool,
        usize,
    ))
        requires
            self.wf(),
            delta_t_days > 0,
        ensures
            r.0@.len() == self.grid_cells@.len(),
            r.1@.len() == self.grid_cells@.len(),
            forall|q: int| 0 <= q < r.1@.len() ==> iabs(#[trigger] r.1@[q] as int) <= DELTA_CAP,
            r.2 as int == spec_stable_factor(*self, r.0@, r.1@),
            10_000_000 <= r.2 <= FX_ONE,
            forall|c: int|
                0 <= c < r.1@.len() ==> #[trigger] r.1@[c] as int == spec_face_budget(
                    *self,
                    r.0@,
                    delta_t_days as int,
                    c,
                    self.grid_cells@.len() as int,
                ) + spec_well_budget(
                    *self,
                    r.0@,
                    delta_t_days as int,
                    c,
                    self.wells@.len() as int,
                ),
            self.wells@.len() == 0 ==> sum_i128(r.1@, self.grid_cells@.len() as int) == 0,
    {
        let n: usize = self.grid_cells.len();
        proof {
            crate::sim::lemma_grid_products(self.nx as int, self.ny as int, self.nz as int);
        }
        let layer: usize = self.nx * self.ny;
        let (a_mat, b_rhs, diag_inv): (crate::solver::CsrMatrix, Vec<i64>, Vec<i64>) =
            self.assemble_pressure_system(delta_t_days);
        let mut x0: Vec<i64> = Vec::new();
        let mut c: usize = 0;
        while c < n
            invariant
                c <= n,
                n == self.grid_cells@.len(),
                x0@.len() == c,
            decreases n - c,
        {
            x0.push(self.grid_cells[c].pressure);
            c = c + 1;
        }
        let pcg: crate::solver::PcgResult = crate::solver::solve_pcg_with_guess(
            &a_mat,
            &b_rhs,
            &diag_inv,
            &x0,
            1000,
        );
        let p_new: Vec<i64> = pcg.solution;
        let mut delta: Vec<i128> = Vec::new();
        c = 0;
        while c < n
            invariant
                c <= n,
                delta@.len() == c,
                forall|q: int| 0 <= q < c ==> #[trigger] delta@[q] == 0i128,
            decreases n - c,
        {
            delta.push(0i128);
            c = c + 1;
        }
        proof {
            lemma_sum_zero(delta@, n as int);
        }
        let ghost dtg: int = delta_t_days as int;
        proof {
            assert forall|c: int|
                0 <= c < n implies #[trigger] delta@[c] as int == spec_face_budget(
                *self,
                p_new@,
                dtg,
                c,
                0,
            ) by {
                assert((self.nx * self.ny) as int >= self.nx as int) by (nonlinear_arith)
                    requires
                        self.nx as int >= 1,
                        self.ny as int >= 1,
                        (self.nx * self.ny) as int == (self.nx as int) * (self.ny as int),
                ;
                if c == 0 {
                    assert((0int % ((self.nx * self.ny) as int)) % (self.nx as int) == 0) by (
                    nonlinear_arith)
                        requires
                            (self.nx * self.ny) as int >= 1,
                            self.nx as int >= 1,
                    ;
                }
                if 0 <= c < self.nx as int {
                    assert((c % ((self.nx * self.ny) as int)) / (self.nx as int) == 0) by (
                    nonlinear_arith)
                        requires
                            0 <= c,
                            c < self.nx as int,
                            (self.nx * self.ny) as int >= self.nx as int,
                            self.nx as int >= 1,
                    ;
                }
                if 0 <= c < (self.nx * self.ny) as int {
                    assert(c / ((self.nx * self.ny) as int) == 0) by (nonlinear_arith)
                        requires
                            0 <= c,
                            c < (self.nx * self.ny) as int,
                    ;
                }
            }
        }
        let ghost mut fd: int = 0;
        let mut id: usize = 0;
        while id < n
            invariant
                id <= n,
                self.wf(),
                delta_t_days > 0,
                dtg == delta_t_days as int,
                n == self.grid_cells@.len(),
                layer == self.nx * self.ny,
                p_new@.len() == n,
                delta@.len() == n,
                sum_i128(delta@, n as int) == 0,
                0 <= fd <= 3 * id,
                forall|q: int| 0 <= q < n ==> iabs(#[trigger] delta@[q] as int) <= fd * MAG63,
                forall|c: int|
                    0 <= c < n ==> #[trigger] delta@[c] as int == spec_face_budget(
                        *self,
                        p_new@,
                        dtg,
                        c,
                        id as int,
                    ),
            decreases n - id,
        {
            let (i, j, k): (usize, usize, usize) = self.cell_coords(id);
            let ghost d0 = delta@;
            let ghost mut dvx: int = 0;
            let ghost mut dvy: int = 0;
            let ghost mut dvz: int = 0;
            if i < self.nx - 1 {
                proof {
                    lemma_neighbor_x(
                        self.nx as int,
                        self.ny as int,
                        self.nz as int,
                        i as int,
                        j as int,
                        k as int,
                        id as int,
                    );
                }
                let nid: usize = id + 1;
                let dv: i64 = self.face_water_flux(id, nid, Axis::X, k, k, &p_new, delta_t_days);
                self.apply_face_delta(&mut delta, id, nid, dv, Ghost(fd), Ghost(n as int));
                proof {
                    fd = fd + 1;
                    dvx = dv as int;
                }
            }
            let ghost d1 = delta@;
            if j < self.ny - 1 {
                proof {
                    lemma_neighbor_y(
                        self.nx as int,
                        self.ny as int,
                        self.nz as int,
                        i as int,
                        j as int,
                        k as int,
                        id as int,
                    );
                }
                let nid: usize = id + self.nx;
                let dv: i64 = self.face_water_flux(id, nid, Axis::Y, k, k, &p_new, delta_t_days);
                self.apply_face_delta(&mut delta, id, nid, dv, Ghost(fd), Ghost(n as int));
                proof {
                    fd = fd + 1;
                    dvy = dv as int;
                }
            }
            let ghost d2 = delta@;
            if k < self.nz - 1 {
                proof {
                    lemma_neighbor_z(
                        self.nx as int,
                        self.ny as int,
                        self.nz as int,
                        i as int,
                        j as int,
                        k as int,
                        id as int,
                    );
                }
                let nid: usize = id + layer;
                let dv: i64 = self.face_water_flux(
                    id,
                    nid,
                    Axis::Z,
                    k,
                    k + 1,
                    &p_new,
                    delta_t_days,
                );
                self.apply_face_delta(&mut delta, id, nid, dv, Ghost(fd), Ghost(n as int));
                proof {
                    fd = fd + 1;
                    dvz = dv as int;
                }
            }
            proof {
                let lx = self.nx as int;
                let ly = self.ny as int;
                let lz = self.nz as int;
                let lfront = id as int;
                if i < self.nx - 1 {
                    assert(layer as int >= 2) by (nonlinear_arith)
                        requires
                            lx >= 2,
                            ly >= 1,
                            layer as int == lx * ly,
                    ;
                }
                if j < self.ny - 1 {
                    assert(layer as int > lx) by (nonlinear_arith)
                        requires
                            lx >= 1,
                            ly >= 2,
                            layer as int == lx * ly,
                    ;
                }
                assert forall|c: int|
                    0 <= c < n implies #[trigger] delta@[c] as int == spec_face_budget(
                    *self,
                    p_new@,
                    dtg,
                    c,
                    lfront + 1,
                ) by {
                    if c == lfront {
                        lemma_budget_debit(*self, p_new@, dtg, lfront);
                    } else if i < self.nx - 1 && c == lfront + 1 {
                        lemma_budget_credit_x(*self, p_new@, dtg, lfront);
                    } else if j < self.ny - 1 && c == lfront + lx {
                        lemma_budget_credit_y(*self, p_new@, dtg, lfront);
                    } else if k < self.nz - 1 && c == lfront + (layer as int) {
                        lemma_budget_credit_z(*self, p_new@, dtg, lfront);
                    } else {
                        lemma_budget_untouched(*self, p_new@, dtg, c, lfront);
                    }
                }
            }
            id = id + 1;
        }
        let wn: usize = self.wells.len();
        let mut w: usize = 0;
        while w < wn
            invariant
                w <= wn,
                self.wf(),
                delta_t_days > 0,
                dtg == delta_t_days as int,
                n == self.grid_cells@.len(),
                wn == self.wells@.len(),
                p_new@.len() == n,
                delta@.len() == n,
                wn == 0 ==> sum_i128(delta@, n as int) == 0,
                forall|q: int|
                    0 <= q < n ==> iabs(#[trigger] delta@[q] as int) <= (3 * n + w) * MAG63,
                forall|c: int|
                    0 <= c < n ==> #[trigger] delta@[c] as int == spec_face_budget(
                        *self,
                        p_new@,
                        dtg,
                        c,
                        n as int,
                    ) + spec_well_budget(*self, p_new@, dtg, c, w as int),
            decreases wn - w,
        {
            let well: Well = self.wells[w];
            let id2: usize = self.idx(well.i, well.j, well.k);
            let ghost before_w = delta@;
            match self.well_rate_m3_day(&well, p_new[id2]) {
                None => {},
                Some(q_m3_day) => {
                    let fw: i64 = if well.injector {
                        FX_ONE
                    } else {
                        self.frac_flow_water(&self.grid_cells[id2])
                    };
                    let water_q: i64 = fx_mul(q_m3_day, fw);
                    let dv: i64 = fx_mul(water_q, delta_t_days);
                    proof {
                        lemma_budget_bound(3 * (n as int) + (w as int));
                    }
                    let cur: i128 = delta[id2];
                    delta.set(id2, cur - (dv as i128));
                    proof {
                        assert forall|q: int|
                            0 <= q < n implies iabs(#[trigger] delta@[q] as int) <= (3 * n + (w
                            + 1)) * MAG63 by {
                            assert(iabs(before_w[q] as int) <= (3 * n + w) * MAG63);
                            lemma_budget_bound(3 * (n as int) + (w as int));
                        }
                    }
                },
            }
            proof {
                if delta@.len() == n {
                    assert forall|q: int|
                        0 <= q < n implies iabs(#[trigger] delta@[q] as int) <= (3 * n + (w + 1))
                        * MAG63 by {
                        lemma_budget_bound(3 * (n as int) + (w as int));
                    }
                }
                assert forall|c: int|
                    0 <= c < n implies #[trigger] delta@[c] as int == spec_face_budget(
                    *self,
                    p_new@,
                    dtg,
                    c,
                    n as int,
                ) + spec_well_budget(*self, p_new@, dtg, c, w as int + 1) by {
                    assert(before_w[c] as int == spec_face_budget(*self, p_new@, dtg, c, n as int)
                        + spec_well_budget(*self, p_new@, dtg, c, w as int));
                }
            }
            w = w + 1;
        }
        proof {
            lemma_delta_within_cap(n as int, wn as int);
        }
        let mut max_sat_change: i64 = 0;
        c = 0;
        while c < n
            invariant
                c <= n,
                self.wf(),
                n == self.grid_cells@.len(),
                delta@.len() == n,
                forall|q: int| 0 <= q < n ==> iabs(#[trigger] delta@[q] as int) <= DELTA_CAP,
                0 <= max_sat_change,
                max_sat_change as int == spec_max_sat_change(*self, delta@, c as int),
            decreases n - c,
        {
            let cell: GridCell = self.grid_cells[c];
            let vp: i64 = cell.pore_volume_m3(self.dx, self.dy, self.dz);
            if vp > 0 {
                let ratio: i64 = crate::fixed::fx_ratio_i128(delta[c], vp as i128);
                let sc: i64 = crate::fixed::fx_abs(ratio);
                if sc > max_sat_change {
                    max_sat_change = sc;
                }
            }
            c = c + 1;
        }
        let sat_factor: i64 = if max_sat_change > self.max_sat_change_per_step {
            proof {
                lemma_fx_div_unit_frac(
                    self.max_sat_change_per_step as int,
                    max_sat_change as int,
                );
            }
            fx_div(self.max_sat_change_per_step, max_sat_change)
        } else {
            FX_ONE
        };
        proof {
            assert(sat_factor as int == spec_factor(
                self.max_sat_change_per_step as int,
                spec_max_sat_change(*self, delta@, n as int),
            ));
        }
        let mut max_pressure_change: i64 = 0;
        c = 0;
        while c < n
            invariant
                c <= n,
                self.wf(),
                n == self.grid_cells@.len(),
                p_new@.len() == n,
                0 <= max_pressure_change,
                max_pressure_change as int == spec_max_press_change(*self, p_new@, c as int),
            decreases n - c,
        {
            let dp: i64 = crate::fixed::fx_abs(fx_sub(p_new[c], self.grid_cells[c].pressure));
            if dp > max_pressure_change {
                max_pressure_change = dp;
            }
            c = c + 1;
        }
        let pressure_factor: i64 = if max_pressure_change > self.max_pressure_change_per_step {
            proof {
                lemma_fx_div_unit_frac(
                    self.max_pressure_change_per_step as int,
                    max_pressure_change as int,
                );
            }
            fx_div(self.max_pressure_change_per_step, max_pressure_change)
        } else {
            FX_ONE
        };
        let mut max_rate_rel: i64 = 0;
        w = 0;
        while w < wn
            invariant
                w <= wn,
                self.wf(),
                n == self.grid_cells@.len(),
                wn == self.wells@.len(),
                p_new@.len() == n,
                0 <= max_rate_rel,
                max_rate_rel as int == spec_max_rate_change(*self, p_new@, w as int),
            decreases wn - w,
        {
            let well: Well = self.wells[w];
            let id2: usize = self.idx(well.i, well.j, well.k);
            let q_old: i64 = match self.well_rate_m3_day(&well, self.grid_cells[id2].pressure) {
                Some(q) => q,
                None => 0,
            };
            let q_new: i64 = match self.well_rate_m3_day(&well, p_new[id2]) {
                Some(q) => q,
                None => 0,
            };
            let diff: i64 = crate::fixed::fx_abs(fx_sub(q_new, q_old));
            let denom: i64 = fx_add(crate::fixed::fx_abs(q_old), FX_ONE);
            let rel: i64 = fx_div(diff, denom);
            proof {
                lemma_fx_div_nonneg_pos(diff as int, denom as int);
            }
            if rel > max_rate_rel {
                max_rate_rel = rel;
            }
            w = w + 1;
        }
        let rate_factor: i64 = if max_rate_rel > self.max_well_rate_change_fraction {
            proof {
                lemma_fx_div_unit_frac(
                    self.max_well_rate_change_fraction as int,
                    max_rate_rel as int,
                );
            }
            fx_div(self.max_well_rate_change_fraction, max_rate_rel)
        } else {
            FX_ONE
        };
        let mut stable: i64 = sat_factor;
        if pressure_factor < stable {
            stable = pressure_factor;
        }
        if rate_factor < stable {
            stable = rate_factor;
        }
        let stable_dt_factor: i64 = fx_clamp(stable, 10_000_000, FX_ONE);
        (p_new, delta, stable_dt_factor, pcg.converged, pcg.iterations)
    }

    /// Credits a face's water volume to the downstream cell and debits
    /// the upstream cell, preserving the running total exactly.
    fn apply_face_delta(
        &self,
        delta: &mut Vec<i128>,
        id: usize,
        nid: usize,
        dv: i64,
        Ghost(fd): Ghost<int>,
        Ghost(nn): Ghost<int>,
    )
        requires
            old(delta)@.len() == nn,
            id < nid,
            nid < old(delta)@.len(),
            0 <= fd <= 3 * (crate::sim::N_CELLS_MAX as int),
            sum_i128(old(delta)@, nn) == 0,
            forall|q: int| 0 <= q < nn ==> iabs(#[trigger] old(delta)@[q] as int) <= fd * MAG63,
        ensures
            final(delta)@.len() == nn,
            sum_i128(final(delta)@, nn) == 0,
            final(delta)@[id as int] as int == old(delta)@[id as int] - dv,
            final(delta)@[nid as int] as int == old(delta)@[nid as int] + dv,
            forall|q: int|
                0 <= q < nn && q != id && q != nid ==> #[trigger] final(delta)@[q] == old(
                    delta,
                )@[q],
            forall|q: int|
                0 <= q < nn ==> iabs(#[trigger] final(delta)@[q] as int) <= (fd + 1) * MAG63,
    {
        let ghost before = delta@;
        proof {
            lemma_budget_bound(fd);
        }
        let cur_up: i128 = delta[id];
        delta.set(id, cur_up - (dv as i128));
        let ghost mid = delta@;
        let cur_down: i128 = delta[nid];
        delta.set(nid, cur_down + (dv as i128));
        proof {
            lemma_sum_update(before, nn, id as int, (cur_up - dv) as i128);
            lemma_sum_update(mid, nn, nid as int, (cur_down + dv) as i128);
            assert forall|q: int|
                0 <= q < nn implies iabs(#[trigger] delta@[q] as int) <= (fd + 1) * MAG63 by {
                assert(iabs(before[q] as int) <= fd * MAG63);
                lemma_mag_step(fd);
            }
        }
    }
}

/// The committed water saturation of a cell: the old value shifted by
/// its water-volume delta over pore volume, clamped into the mobile
/// window.
pub open spec fn spec_new_sat_water(s: ReservoirSimulator, c: GridCell, d: i128) -> int {
    crate::fixed::clamp_spec(
        sat_i64(c.sat_water + fx_div_spec(d as int, spec_pore_volume(s, c))),
        s.scal.s_wc as int,
        FX_ONE - s.scal.s_or,
    )
}

impl ReservoirSimulator {
    /// Commits a sub-step: every cell with positive pore volume takes
    /// the solved pressure and shifts its water saturation by its
    /// accumulated water volume over pore volume, clamped into
    /// [S_wc, 1 - S_or], with oil taking the exact complement; a cell
    /// without pore volume is untouched. One rate record is appended
    /// and time advances by the committed step.
    pub fn update_saturations_and_pressure(
        &mut self,
        p_new: &Vec<i64>,
        delta_water_m3: &Vec<i128>,
        dt_days: i64,
    )
        requires
            old(self).wf(),
            p_new@.len() == old(self).grid_cells@.len(),
            delta_water_m3@.len() == old(self).grid_cells@.len(),
            dt_days >= 0,
            forall|q: int|
                0 <= q < delta_water_m3@.len() ==> iabs(#[trigger] delta_water_m3@[q] as int)
                    <= DELTA_CAP,
        ensures
            final(self).wf(),
            *final(self) == (ReservoirSimulator {
                grid_cells: final(self).grid_cells,
                time_days: final(self).time_days,
                rate_history: final(self).rate_history,
                cumulative_injection_m3: final(self).cumulative_injection_m3,
                cumulative_production_m3: final(self).cumulative_production_m3,
                ..*old(self)
            }),
            final(self).time_days as int == sat_i64(old(self).time_days + dt_days),
            final(self).time_days >= old(self).time_days,
            final(self).rate_history@.len() == old(self).rate_history@.len() + 1,
            final(self).rate_history@.subrange(0, old(self).rate_history@.len() as int) == old(
                self,
            ).rate_history@,
            final(self).rate_history@.last().time == final(self).time_days,
            final(self).grid_cells@.len() == old(self).grid_cells@.len(),
            forall|c: int|
                0 <= c < old(self).grid_cells@.len() ==> (spec_pore_volume(
                    *old(self),
                    old(self).grid_cells@[c],
                ) <= 0 ==> (#[trigger] final(self).grid_cells@[c]) == old(self).grid_cells@[c]),
            forall|c: int|
                0 <= c < old(self).grid_cells@.len() ==> (spec_pore_volume(
                    *old(self),
                    old(self).grid_cells@[c],
                ) > 0 ==> (#[trigger] final(self).grid_cells@[c]) == (GridCell {
                    pressure: p_new@[c],
                    sat_water: spec_new_sat_water(
                        *old(self),
                        old(self).grid_cells@[c],
                        delta_water_m3@[c],
                    ) as i64,
                    sat_oil: (FX_ONE - spec_new_sat_water(
                        *old(self),
                        old(self).grid_cells@[c],
                        delta_water_m3@[c],
                    )) as i64,
                    ..old(self).grid_cells@[c]
                })),
            forall|c: int|
                0 <= c < old(self).grid_cells@.len() ==> (spec_pore_volume(
                    *old(self),
                    old(self).grid_cells@[c],
                ) > 0 ==> old(self).scal.s_wc <= (#[trigger] final(self).grid_cells@[c]).sat_water
                    <= FX_ONE - old(self).scal.s_or),
            forall|c: int|
                0 <= c < old(self).grid_cells@.len() ==> (#[trigger] final(self).grid_cells@[c]).sat_water
                    + final(self).grid_cells@[c].sat_oil == FX_ONE,
            ({
                let mid = ReservoirSimulator { grid_cells: final(self).grid_cells, ..*old(self) };
                let t = spec_rate_totals(mid, p_new@, old(self).wells@.len() as int);
                let rec = final(self).rate_history@.last();
                rec.total_production_oil as int == t.0 && rec.total_production_liquid as int
                    == t.1 && rec.total_production_liquid_reservoir as int == t.2
                    && rec.total_injection as int == t.3 && rec.total_injection_reservoir as int
                    == t.4 && rec.total_production_water_reservoir as int == t.5
                    && final(self).cumulative_injection_m3 as int == sat_i64(
                    old(self).cumulative_injection_m3 + fx_mul_spec(t.4, dt_days as int),
                ) && final(self).cumulative_production_m3 as int == sat_i64(
                    old(self).cumulative_production_m3 + fx_mul_spec(t.5, dt_days as int),
                ) && rec.material_balance_error_m3 as int == sat_i64(
                    iabs(
                        sat_i64(
                            fx_mul_spec(sat_i64(t.4 - t.5), dt_days as int) - sat_i64(
                                sum_i128(delta_water_m3@, delta_water_m3@.len() as int),
                            ),
                        ),
                    ),
                ) && rec.avg_reservoir_pressure as int == sat_i64(
                    crate::fixed::div_tz_spec(
                        spec_press_sum(final(self).grid_cells@, final(self).grid_cells@.len() as int),
                        final(self).grid_cells@.len() as int,
                    ),
                ) && rec.avg_water_saturation as int == sat_i64(
                    crate::fixed::div_tz_spec(
                        spec_sat_sum(final(self).grid_cells@, final(self).grid_cells@.len() as int),
                        final(self).grid_cells@.len() as int,
                    ),
                )
            }),
            old(self).wells@.len() == 0 ==> ({
                let rec = final(self).rate_history@.last();
                rec.total_production_oil == 0 && rec.total_production_liquid == 0
                    && rec.total_production_liquid_reservoir == 0 && rec.total_injection == 0
                    && rec.total_injection_reservoir == 0 && rec.total_production_water_reservoir
                    == 0 && rec.material_balance_error_m3 as int == sat_i64(
                    iabs(
                        sat_i64(
                            0 - sat_i64(
                                sum_i128(delta_water_m3@, delta_water_m3@.len() as int),
                            ),
                        ),
                    ),
                ) && final(self).cumulative_injection_m3 == old(self).cumulative_injection_m3
                    && final(self).cumulative_production_m3 == old(
                    self,
                ).cumulative_production_m3
            }),
    {
        let n: usize = self.grid_cells.len();
        let sw_hi: i64 = FX_ONE - self.scal.s_or;
        let mut c: usize = 0;
        while c < n
            invariant
                c <= n,
                old(self).wf(),
                n == self.grid_cells@.len(),
                n == old(self).grid_cells@.len(),
                n == p_new@.len(),
                n == delta_water_m3@.len(),
                sw_hi == FX_ONE - old(self).scal.s_or,
                forall|q: int|
                    0 <= q < n ==> iabs(#[trigger] delta_water_m3@[q] as int) <= DELTA_CAP,
                crate::sim::same_but_cells(*old(self), *self),
                forall|q: int|
                    c <= q < n ==> #[trigger] self.grid_cells@[q] == old(self).grid_cells@[q],
                forall|q: int|
                    0 <= q < c ==> (spec_pore_volume(*old(self), old(self).grid_cells@[q]) <= 0
                        ==> (#[trigger] self.grid_cells@[q]) == old(self).grid_cells@[q]),
                forall|q: int|
                    0 <= q < c ==> (spec_pore_volume(*old(self), old(self).grid_cells@[q]) > 0
                        ==> (#[trigger] self.grid_cells@[q]) == (GridCell {
                        pressure: p_new@[q],
                        sat_water: spec_new_sat_water(
                            *old(self),
                            old(self).grid_cells@[q],
                            delta_water_m3@[q],
                        ) as i64,
                        sat_oil: (FX_ONE - spec_new_sat_water(
                            *old(self),
                            old(self).grid_cells@[q],
                            delta_water_m3@[q],
                        )) as i64,
                        ..old(self).grid_cells@[q]
                    })),
            decreases n - c,
        {
            let cell: GridCell = self.grid_cells[c];
            let vp: i64 = cell.pore_volume_m3(self.dx, self.dy, self.dz);
            if vp > 0 {
                let delta_sw: i64 = crate::fixed::fx_ratio_i128(delta_water_m3[c], vp as i128);
                let sw_new: i64 = fx_clamp(fx_add(cell.sat_water, delta_sw), self.scal.s_wc, sw_hi);
                let so_new: i64 = FX_ONE - sw_new;
                self.grid_cells.set(
                    c,
                    GridCell { pressure: p_new[c], sat_water: sw_new, sat_oil: so_new, ..cell },
                );
            }
            c = c + 1;
        }
        proof {
            assert forall|q: int|
                0 <= q < self.grid_cells@.len() implies (#[trigger] self.grid_cells@[q]).inv() by {
                assert(old(self).grid_cells@[q].inv());
            }
            assert(self.wf());
        }
        let ghost mid = *self;
        let mut total_prod_oil: i64 = 0;
        let mut total_prod_liquid: i64 = 0;
        let mut total_prod_liquid_res: i64 = 0;
        let mut total_injection: i64 = 0;
        let mut total_injection_res: i64 = 0;
        let mut total_prod_water_res: i64 = 0;
        let wn: usize = self.wells.len();
        let mut w: usize = 0;
        while w < wn
            invariant
                w <= wn,
                self.wf(),
                *self == mid,
                wn == self.wells@.len(),
                n == self.grid_cells@.len(),
                n == p_new@.len(),
                (
                    total_prod_oil as int,
                    total_prod_liquid as int,
                    total_prod_liquid_res as int,
                    total_injection as int,
                    total_injection_res as int,
                    total_prod_water_res as int,
                ) == spec_rate_totals(mid, p_new@, w as int),
            decreases wn - w,
        {
            let well: Well = self.wells[w];
            let id: usize = self.idx(well.i, well.j, well.k);
            match self.well_rate_m3_day(&well, p_new[id]) {
                None => {},
                Some(q_m3_day) => {
                    if well.injector {
                        total_injection = fx_sub(total_injection, fx_div(q_m3_day, self.b_w));
                        total_injection_res = fx_sub(total_injection_res, q_m3_day);
                    } else {
                        total_prod_liquid_res = fx_add(total_prod_liquid_res, q_m3_day);
                        let fw: i64 = self.frac_flow_water(&self.grid_cells[id]);
                        total_prod_water_res = fx_add(
                            total_prod_water_res,
                            fx_mul(q_m3_day, fw),
                        );
                        let oil_rate: i64 = fx_div(fx_mul(q_m3_day, FX_ONE - fw), self.b_o);
                        let water_rate: i64 = fx_div(fx_mul(q_m3_day, fw), self.b_w);
                        total_prod_oil = fx_add(total_prod_oil, oil_rate);
                        total_prod_liquid = fx_add(
                            total_prod_liquid,
                            fx_add(oil_rate, water_rate),
                        );
                    }
                },
            }
            w = w + 1;
        }
        self.cumulative_injection_m3 = fx_add(
            self.cumulative_injection_m3,
            fx_mul(total_injection_res, dt_days),
        );
        self.cumulative_production_m3 = fx_add(
            self.cumulative_production_m3,
            fx_mul(total_prod_water_res, dt_days),
        );
        let net_added: i64 = fx_mul(fx_sub(total_injection_res, total_prod_water_res), dt_days);
        proof {
            if wn == 0 {
                assert(fx_mul_spec(0, dt_days as int) == 0) by (nonlinear_arith);
            }
        }
        let mut actual_sum: i128 = 0;
        c = 0;
        while c < n
            invariant
                c <= n,
                n == delta_water_m3@.len(),
                n <= crate::sim::N_CELLS_MAX,
                forall|q: int|
                    0 <= q < n ==> iabs(#[trigger] delta_water_m3@[q] as int) <= DELTA_CAP,
                iabs(actual_sum as int) <= c * DELTA_CAP,
                actual_sum as int == sum_i128(delta_water_m3@, c as int),
            decreases n - c,
        {
            proof {
                lemma_cap_sum_step(c as int, n as int);
            }
            actual_sum = actual_sum + delta_water_m3[c];
            c = c + 1;
        }
        let actual_change: i64 = crate::fixed::sat_i128_to_i64(actual_sum);
        let mb_error: i64 = crate::fixed::fx_abs(fx_sub(net_added, actual_change));
        let mut press_sum: i128 = 0;
        let mut sat_sum: i128 = 0;
        c = 0;
        while c < n
            invariant
                c <= n,
                self.wf(),
                n == self.grid_cells@.len(),
                iabs(press_sum as int) <= c * MAG63,
                iabs(sat_sum as int) <= c * MAG63,
                press_sum as int == spec_press_sum(self.grid_cells@, c as int),
                sat_sum as int == spec_sat_sum(self.grid_cells@, c as int),
            decreases n - c,
        {
            proof {
                lemma_avg_sum_step(c as int, n as int);
            }
            press_sum = press_sum + (self.grid_cells[c].pressure as i128);
            sat_sum = sat_sum + (self.grid_cells[c].sat_water as i128);
            c = c + 1;
        }
        proof {
            lemma_avg_sum_bound(n as int);
            crate::sim::lemma_grid_products(self.nx as int, self.ny as int, self.nz as int);
            assert(n >= 1) by (nonlinear_arith)
                requires
                    self.nx as int * (self.ny as int) * (self.nz as int) == n as int,
                    self.nx >= 1,
                    self.ny >= 1,
                    self.nz >= 1,
            ;
        }
        let avg_pressure: i64 = crate::fixed::i128_div_to_i64(press_sum, n as u64);
        let avg_sat: i64 = crate::fixed::i128_div_to_i64(sat_sum, n as u64);
        let t_new: i64 = fx_add(self.time_days, dt_days);
        let ghost hist_before = self.rate_history@;
        self.rate_history.push(
            crate::well::TimePointRates {
                time: t_new,
                total_production_oil: total_prod_oil,
                total_production_liquid: total_prod_liquid,
                total_production_liquid_reservoir: total_prod_liquid_res,
                total_injection: total_injection,
                total_injection_reservoir: total_injection_res,
                total_production_water_reservoir: total_prod_water_res,
                material_balance_error_m3: mb_error,
                avg_reservoir_pressure: avg_pressure,
                avg_water_saturation: avg_sat,
            },
        );
        self.time_days = t_new;
        proof {
            assert(self.rate_history@.subrange(0, hist_before.len() as int) =~= hist_before);
        }
    }

    /// Scales every accumulated water delta by a unit-interval factor,
    /// rounding toward zero. Entries stay within the hand-off cap, and
    /// a budget that summed to zero stays within one fixed-point
    /// quantum per cell after scaling.
    fn scale_deltas(delta: &Vec<i128>, ratio: i64) -> (r: Vec<i128>)
        requires
            0 <= ratio <= FX_ONE,
            forall|q: int| 0 <= q < delta@.len() ==> iabs(#[trigger] delta@[q] as int) <= DELTA_CAP,
        ensures
            r@.len() == delta@.len(),
            forall|q: int| 0 <= q < r@.len() ==> iabs(#[trigger] r@[q] as int) <= DELTA_CAP,
            sum_i128(delta@, delta@.len() as int) == 0 ==> iabs(
                sum_i128(r@, r@.len() as int),
            ) <= r@.len(),
    {
        let n: usize = delta.len();
        let mut out: Vec<i128> = Vec::new();
        let mut c: usize = 0;
        while c < n
            invariant
                c <= n,
                n == delta@.len(),
                0 <= ratio <= FX_ONE,
                forall|q: int| 0 <= q < n ==> iabs(#[trigger] delta@[q] as int) <= DELTA_CAP,
                out@.len() == c,
                forall|q: int| 0 <= q < c ==> iabs(#[trigger] out@[q] as int) <= DELTA_CAP,
                iabs(
                    (FX_ONE as int) * sum_i128(out@, c as int) - (ratio as int) * sum_i128(
                        delta@,
                        c as int,
                    ),
                ) <= c * (FX_ONE as int),
            decreases n - c,
        {
            let ghost out_before = out@;
            let d: i128 = delta[c];
            let neg: bool = d < 0;
            let mag: u128 = if d >= 0 {
                d as u128
            } else {
                (-d) as u128
            };
            assert(mag * (ratio as u128) <= 1_000_000_000_000_000_000_000_000_000u128
                * 1_000_000_000u128) by (nonlinear_arith)
                requires
                    mag <= 1_000_000_000_000_000_000_000_000_000u128,
                    ratio <= 1_000_000_000i64,
                    ratio >= 0,
            ;
            let smag: u128 = (mag * (ratio as u128)) / (FX_ONE as u128);
            proof {
                assert((mag as int) * (ratio as int) <= (mag as int) * 1_000_000_000int) by (
                nonlinear_arith)
                    requires
                        0 <= ratio,
                        ratio <= 1_000_000_000i64,
                ;
                assert(((mag as int) * (ratio as int)) / 1_000_000_000int <= mag as int) by (
                nonlinear_arith)
                    requires
                        (mag as int) * (ratio as int) <= (mag as int) * 1_000_000_000int,
                        0 <= mag as int,
                ;
            }
            let sd: i128 = if neg {
                -(smag as i128)
            } else {
                smag as i128
            };
            out.push(sd);
            proof {
                lemma_trunc_scale_error(d as int, ratio as int, sd as int);
                lemma_sum_congruent(out@, out_before, c as int);
                assert(sum_i128(out@, c as int + 1) == sum_i128(out_before, c as int) + sd);
                lemma_scale_sum_step(
                    sum_i128(out_before, c as int),
                    sum_i128(delta@, c as int),
                    sd as int,
                    delta@[c as int] as int,
                    ratio as int,
                    c as int,
                );
            }
            c = c + 1;
        }
        proof {
            if sum_i128(delta@, n as int) == 0 {
                assert(iabs((FX_ONE as int) * sum_i128(out@, n as int)) <= n * (FX_ONE as int));
                lemma_abs_div_bound(sum_i128(out@, n as int), n as int);
            }
        }
        out
    }

    /// Runs sub-steps until the target interval is exhausted or ten
    /// consecutive CFL rejections occur. Every sub-step refreshes the
    /// dynamic productivity indices, solves pressure, and either
    /// commits the full remaining interval or a 0.9-weighted stable
    /// fraction of it; time never moves backwards and every sub-step
    /// appends one rate record.
    pub fn step_internal(&mut self, target_dt_days: i64)
        requires
            old(self).wf(),
        ensures
            final(self).wf(),
            final(self).time_days >= old(self).time_days,
            final(self).time_days as int <= sat_i64(
                old(self).time_days + if target_dt_days > 0 {
                    target_dt_days as int
                } else {
                    0
                },
            ),
            final(self).rate_history@.len() >= old(self).rate_history@.len(),
            final(self).rate_history@.subrange(0, old(self).rate_history@.len() as int) == old(
                self,
            ).rate_history@,
            target_dt_days > 0 ==> final(self).rate_history@.len() > old(
                self,
            ).rate_history@.len(),
            target_dt_days >= MIN_ADVANCE_DT && old(self).time_days + target_dt_days <= i64::MAX
                ==> final(self).time_days > old(self).time_days,
            target_dt_days <= 0 ==> *final(self) == (ReservoirSimulator {
                last_solver_warning: None,
                ..*old(self)
            }),
    {
        self.last_solver_warning = None;
        let mut time_stepped: i64 = 0;
        let mut attempts: u32 = 0;
        while time_stepped < target_dt_days && attempts < MAX_ATTEMPTS
            invariant
                self.wf(),
                old(self).wf(),
                0 <= time_stepped,
                attempts <= MAX_ATTEMPTS,
                target_dt_days > 0 ==> time_stepped <= target_dt_days,
                target_dt_days <= 0 ==> (time_stepped == 0 && attempts == 0),
                self.time_days >= old(self).time_days,
                self.time_days as int <= sat_i64(old(self).time_days + time_stepped),
                old(self).time_days + target_dt_days <= i64::MAX ==> self.time_days as int == old(
                    self,
                ).time_days + time_stepped,
                (target_dt_days >= MIN_ADVANCE_DT && (attempts > 0 || time_stepped > 0))
                    ==> time_stepped >= 1,
                self.rate_history@.len() >= old(self).rate_history@.len(),
                self.rate_history@.subrange(0, old(self).rate_history@.len() as int) == old(
                    self,
                ).rate_history@,
                (attempts > 0 || time_stepped > 0) ==> self.rate_history@.len() > old(
                    self,
                ).rate_history@.len(),
                (attempts == 0 && time_stepped == 0) ==> *self == (ReservoirSimulator {
                    last_solver_warning: None,
                    ..*old(self)
                }),
            decreases 11 * (target_dt_days - time_stepped) + MAX_ATTEMPTS - attempts,
        {
            let remaining: i64 = target_dt_days - time_stepped;
            self.update_dynamic_well_productivity_indices();
            let (p_new, delta, stable, converged, iters): (Vec<i64>, Vec<i128>, i64, bool, usize) =
                self.calculate_fluxes(remaining);
            if !converged {
                self.last_solver_warning = Some(
                    crate::sim::SolverWarning { iterations: iters, at_time_days: self.time_days },
                );
            }
            if stable < FX_ONE {
                proof {
                    lemma_fx_mul_shrink(stable as int, remaining as int);
                    if remaining >= MIN_ADVANCE_DT {
                        lemma_min_substep(stable as int, remaining as int);
                    }
                }
                let scaled_dt: i64 = fx_mul(stable, remaining);
                proof {
                    lemma_fx_scale_nine_tenths(scaled_dt as int);
                }
                let actual_dt: i64 = fx_scale(scaled_dt, 9, 10);
                let ratio: i64 = fx_div(actual_dt, remaining);
                proof {
                    if actual_dt > 0 {
                        lemma_fx_div_unit_frac(actual_dt as int, remaining as int);
                    } else {
                        assert(fx_div_spec(0, remaining as int) == 0) by (nonlinear_arith)
                            requires
                                remaining > 0,
                        ;
                    }
                }
                let final_delta: Vec<i128> = Self::scale_deltas(&delta, ratio);
                let ghost hist_pre = self.rate_history@;
                self.update_saturations_and_pressure(&p_new, &final_delta, actual_dt);
                proof {
                    lemma_step_commit_glue(
                        *old(self),
                        hist_pre,
                        self.rate_history@,
                        old(self).time_days as int,
                        time_stepped as int,
                        actual_dt as int,
                    );
                }
                attempts = attempts + 1;
                time_stepped = time_stepped + actual_dt;
            } else {
                let ghost hist_pre = self.rate_history@;
                self.update_saturations_and_pressure(&p_new, &delta, remaining);
                proof {
                    lemma_step_commit_glue(
                        *old(self),
                        hist_pre,
                        self.rate_history@,
                        old(self).time_days as int,
                        time_stepped as int,
                        remaining as int,
                    );
                }
                attempts = 0;
                time_stepped = time_stepped + remaining;
            }
        }
        proof {
            if target_dt_days > 0 {
                lemma_sat_mono(
                    old(self).time_days + time_stepped,
                    old(self).time_days + target_dt_days,
                );
            }
        }
    }

    /// Advances the simulation by the target interval under the
    /// adaptive sub-stepping controller.
    pub fn step(&mut self, target_dt_days: i64)
        requires
            old(self).wf(),
        ensures
            final(self).wf(),
            final(self).time_days >= old(self).time_days,
            final(self).time_days as int <= sat_i64(
                old(self).time_days + if target_dt_days > 0 {
                    target_dt_days as int
                } else {
                    0
                },
            ),
            final(self).rate_history@.len() >= old(self).rate_history@.len(),
            final(self).rate_history@.subrange(0, old(self).rate_history@.len() as int) == old(
                self,
            ).rate_history@,
            target_dt_days > 0 ==> final(self).rate_history@.len() > old(
                self,
            ).rate_history@.len(),
            target_dt_days >= MIN_ADVANCE_DT && old(self).time_days + target_dt_days <= i64::MAX
                ==> final(self).time_days > old(self).time_days,
            target_dt_days <= 0 ==> *final(self) == (ReservoirSimulator {
                last_solver_warning: None,
                ..*old(self)
            }),
    {
        self.step_internal(target_dt_days)
    }
}

/// Truncating d * ratio / FX_ONE toward zero stays within one unit of
/// the exact product.
proof fn lemma_trunc_scale_error(d: int, ratio: int, sd: int)
    by (nonlinear_arith)
    requires
        0 <= ratio <= FX_ONE,
        d >= 0 ==> sd == (d * ratio) / (FX_ONE as int),
        d < 0 ==> sd == -(((-d) * ratio) / (FX_ONE as int)),
    ensures
        iabs((FX_ONE as int) * sd - ratio * d) < FX_ONE as int,
{
    if d >= 0 {
        vstd::arithmetic::div_mod::lemma_fundamental_div_mod(d * ratio, FX_ONE as int);
        vstd::arithmetic::div_mod::lemma_mod_bound(d * ratio, FX_ONE as int);
    } else {
        vstd::arithmetic::div_mod::lemma_fundamental_div_mod((-d) * ratio, FX_ONE as int);
        vstd::arithmetic::div_mod::lemma_mod_bound((-d) * ratio, FX_ONE as int);
    }
}

/// One more bounded rounding error keeps the scaled running sum within
/// its linear envelope.
proof fn lemma_scale_sum_step(so: int, sdl: int, sd: int, d: int, ratio: int, c: int)
    by (nonlinear_arith)
    requires
        0 <= c,
        iabs((FX_ONE as int) * so - ratio * sdl) <= c * (FX_ONE as int),
        iabs((FX_ONE as int) * sd - ratio * d) < FX_ONE as int,
    ensures
        iabs((FX_ONE as int) * (so + sd) - ratio * (sdl + d)) <= (c + 1) * (FX_ONE as int),
{
}

/// A value whose magnitude scaled by the unit stays under n units has
/// magnitude at most n.
proof fn lemma_abs_div_bound(s: int, n: int)
    by (nonlinear_arith)
    requires
        0 <= n,
        iabs((FX_ONE as int) * s) <= n * (FX_ONE as int),
    ensures
        iabs(s) <= n,
{
}

/// Saturating after an already-saturated non-negative base never
/// overshoots the one-shot saturation.
pub proof fn lemma_sat_chain(u: int, a: int)
    requires
        0 <= u,
        0 <= a,
    ensures
        sat_i64(sat_i64(u) + a) <= sat_i64(u + a),
{
    if u > i64::MAX {
        assert(sat_i64(u) == i64::MAX);
        assert(sat_i64(u + a) == i64::MAX);
    }
}

/// Saturation preserves order.
pub proof fn lemma_sat_mono(x: int, y: int)
    requires
        x <= y,
    ensures
        sat_i64(x) <= sat_i64(y),
{
}

/// A prefix preserved into a longer sequence keeps its own prefixes.
pub proof fn lemma_subrange_chain<T>(h0: Seq<T>, h1: Seq<T>, h2: Seq<T>)
    requires
        h0.len() <= h1.len() <= h2.len(),
        h1.subrange(0, h0.len() as int) == h0,
        h2.subrange(0, h1.len() as int) == h1,
    ensures
        h2.subrange(0, h0.len() as int) == h0,
{
    assert forall|q: int| 0 <= q < h0.len() implies h2[q] == h0[q] by {
        assert(h1.subrange(0, h0.len() as int)[q] == h1[q]);
        assert(h2.subrange(0, h1.len() as int)[q] == h2[q]);
    }
    assert(h2.subrange(0, h0.len() as int) =~= h0);
}

/// Packs the per-commit facts the controller's invariants need: the
/// saturation chain on time and the history-prefix chain.
proof fn lemma_step_commit_glue(
    base: ReservoirSimulator,
    hist_pre: Seq<crate::well::TimePointRates>,
    hist_post: Seq<crate::well::TimePointRates>,
    t0: int,
    stepped: int,
    dt: int,
)
    requires
        0 <= t0,
        0 <= stepped,
        0 <= dt,
        base.rate_history@.len() <= hist_pre.len() <= hist_post.len(),
        hist_pre.subrange(0, base.rate_history@.len() as int) == base.rate_history@,
        hist_post.subrange(0, hist_pre.len() as int) == hist_pre,
    ensures
        sat_i64(sat_i64(t0 + stepped) + dt) <= sat_i64(t0 + stepped + dt),
        hist_post.subrange(0, base.rate_history@.len() as int) == base.rate_history@,
{
    lemma_sat_chain(t0 + stepped, dt);
    lemma_subrange_chain(base.rate_history@, hist_pre, hist_post);
}

/// At the stability floor and the 0.9 slack, a remaining interval of at
/// least `MIN_ADVANCE_DT` units still commits a positive sub-step.
proof fn lemma_min_substep(stable: int, remaining: int)
    by (nonlinear_arith)
    requires
        10_000_000 <= stable,
        MIN_ADVANCE_DT <= remaining,
    ensures
        fx_scale_spec(fx_mul_spec(stable, remaining), 9, 10) >= 1,
{
}

/// One more capped term keeps the running bound linear in the count.
proof fn lemma_cap_sum_step(c: int, n: int)
    by (nonlinear_arith)
    requires
        0 <= c < n,
        n <= crate::sim::N_CELLS_MAX,
    ensures
        c * DELTA_CAP + DELTA_CAP == (c + 1) * DELTA_CAP,
        n * DELTA_CAP <= 0x7fff_ffff_ffff_ffff_ffff_ffff_ffff_ffff - DELTA_CAP,
        c * DELTA_CAP <= n * DELTA_CAP,
{
}

/// One more bounded term keeps the running average sum linear.
proof fn lemma_avg_sum_step(c: int, n: int)
    by (nonlinear_arith)
    requires
        0 <= c < n,
        n <= crate::sim::N_CELLS_MAX,
    ensures
        c * MAG63 + MAG63 == (c + 1) * MAG63,
        c * MAG63 <= n * MAG63,
        n * MAG63 <= 0x7fff_ffff_ffff_ffff_ffff_ffff_ffff_ffff - MAG63,
{
}

/// The average sums stay under the division cap.
proof fn lemma_avg_sum_bound(n: int)
    by (nonlinear_arith)
    requires
        0 <= n <= crate::sim::N_CELLS_MAX,
    ensures
        n * MAG63 <= crate::fixed::DOT_CAP,
{
}

/// A unit-interval factor never grows a non-negative value.
proof fn lemma_fx_mul_shrink(s: int, r: int)
    by (nonlinear_arith)
    requires
        0 <= s <= FX_ONE,
        0 <= r,
    ensures
        0 <= fx_mul_spec(s, r) <= r,
{
}

/// Taking nine tenths never grows a non-negative value.
proof fn lemma_fx_scale_nine_tenths(x: int)
    by (nonlinear_arith)
    requires
        0 <= x,
    ensures
        0 <= fx_scale_spec(x, 9, 10) <= x,
{
}

/// Growing the face budget by one magnitude keeps old bounds valid.
proof fn lemma_mag_step(fd: int)
    by (nonlinear_arith)
    requires
        0 <= fd,
    ensures
        fd * MAG63 + MAG63 == (fd + 1) * MAG63,
        fd * MAG63 <= (fd + 1) * MAG63,
{
}

/// Any budget within the face-and-well allowance stays clear of both
/// the hand-off cap and the wide-integer range.
proof fn lemma_budget_bound(m: int)
    by (nonlinear_arith)
    requires
        0 <= m <= 3 * (crate::sim::N_CELLS_MAX as int) + (crate::sim::MAX_WELLS as int),
    ensures
        m * MAG63 <= DELTA_CAP,
        (m + 1) * MAG63 == m * MAG63 + MAG63,
        (m + 1) * MAG63 <= DELTA_CAP + MAG63,
{
}

/// A vector of zeros sums to zero.
proof fn lemma_sum_zero(s: Seq<i128>, n: int)
    requires
        0 <= n <= s.len(),
        forall|q: int| 0 <= q < n ==> #[trigger] s[q] == 0i128,
    ensures
        sum_i128(s, n) == 0,
    decreases n,
{
    if n > 0 {
        lemma_sum_zero(s, n - 1);
    }
}

/// The face and well budgets together stay under the hand-off cap.
proof fn lemma_delta_within_cap(n: int, wn: int)
    by (nonlinear_arith)
    requires
        0 <= n <= crate::sim::N_CELLS_MAX,
        0 <= wn <= crate::sim::MAX_WELLS,
    ensures
        (3 * n + wn) * MAG63 <= DELTA_CAP,
        3 * n * MAG63 <= DELTA_CAP,
{
}

/// Row q of an assembled system is non-empty and ends with its
/// diagonal entry.
pub open spec fn row_diag_last(row_ptr: Seq<usize>, col_idx: Seq<usize>, q: int) -> bool {
    row_ptr[q] < row_ptr[q + 1] && col_idx[row_ptr[q + 1] - 1] == q
}

/// Advancing the front past one cell debits that cell with exactly its
/// existing outgoing faces; its incoming guards do not move.
proof fn lemma_budget_debit(s: ReservoirSimulator, p_new: Seq<i64>, dt: int, front: int)
    requires
        s.wf(),
        0 <= front < s.grid_cells@.len(),
    ensures
        spec_face_budget(s, p_new, dt, front, front + 1) == spec_face_budget(
            s,
            p_new,
            dt,
            front,
            front,
        ) - (if coord_i(s, front) < s.nx - 1 {
            s.spec_face_water_flux(
                front,
                front + 1,
                Axis::X,
                coord_k(s, front),
                coord_k(s, front),
                p_new,
                dt,
            )
        } else {
            0int
        }) - (if coord_j(s, front) < s.ny - 1 {
            s.spec_face_water_flux(
                front,
                front + s.nx as int,
                Axis::Y,
                coord_k(s, front),
                coord_k(s, front),
                p_new,
                dt,
            )
        } else {
            0int
        }) - (if coord_k(s, front) < s.nz - 1 {
            s.spec_face_water_flux(
                front,
                front + (s.nx * s.ny) as int,
                Axis::Z,
                coord_k(s, front),
                coord_k(s, front) + 1,
                p_new,
                dt,
            )
        } else {
            0int
        }),
{
}

/// Crediting the x face: the cell one past the front gains exactly the
/// face from the front when that face exists.
proof fn lemma_budget_credit_x(s: ReservoirSimulator, p_new: Seq<i64>, dt: int, front: int)
    requires
        s.wf(),
        0 <= front < s.grid_cells@.len(),
        coord_i(s, front) < s.nx - 1,
    ensures
        spec_face_budget(s, p_new, dt, front + 1, front + 1) == spec_face_budget(
            s,
            p_new,
            dt,
            front + 1,
            front,
        ) + s.spec_face_water_flux(
            front,
            front + 1,
            Axis::X,
            coord_k(s, front),
            coord_k(s, front),
            p_new,
            dt,
        ),
{
    let nx = s.nx as int;
    let ny = s.ny as int;
    let nz = s.nz as int;
    lemma_cell_coords(front, nx, ny, nz);
    let fi = coord_i(s, front);
    let fj = coord_j(s, front);
    let fk = coord_k(s, front);
    assert(front == fk * (nx * ny) + fj * nx + fi);
    lemma_coords_of_flat(nx, ny, nz, fi + 1, fj, fk);
    assert(fk * (nx * ny) + fj * nx + (fi + 1) == front + 1);
    assert(nx >= 2);
    assert((s.nx * s.ny) as int >= 2) by (nonlinear_arith)
        requires
            s.nx as int >= 2,
            s.ny as int >= 1,
            (s.nx * s.ny) as int == (s.nx as int) * (s.ny as int),
    ;
}

/// Crediting the y face: the cell one row past the front gains exactly
/// the face from the front when that face exists.
proof fn lemma_budget_credit_y(s: ReservoirSimulator, p_new: Seq<i64>, dt: int, front: int)
    requires
        s.wf(),
        0 <= front < s.grid_cells@.len(),
        coord_j(s, front) < s.ny - 1,
    ensures
        spec_face_budget(s, p_new, dt, front + s.nx as int, front + 1) == spec_face_budget(
            s,
            p_new,
            dt,
            front + s.nx as int,
            front,
        ) + s.spec_face_water_flux(
            front,
            front + s.nx as int,
            Axis::Y,
            coord_k(s, front),
            coord_k(s, front),
            p_new,
            dt,
        ),
{
    let nx = s.nx as int;
    let ny = s.ny as int;
    let nz = s.nz as int;
    lemma_cell_coords(front, nx, ny, nz);
    let fi = coord_i(s, front);
    let fj = coord_j(s, front);
    let fk = coord_k(s, front);
    assert(front == fk * (nx * ny) + fj * nx + fi);
    lemma_coords_of_flat(nx, ny, nz, fi, fj + 1, fk);
    assert(fk * (nx * ny) + (fj + 1) * nx + fi == front + nx) by (nonlinear_arith)
        requires
            front == fk * (nx * ny) + fj * nx + fi,
    ;
    assert(ny >= 2);
    assert((s.nx * s.ny) as int != nx || ny == 1) by (nonlinear_arith)
        requires
            (s.nx * s.ny) as int == nx * ny,
            nx >= 1,
            ny >= 1,
    ;
}

/// Crediting the z face: the cell one layer past the front gains
/// exactly the face from the front when that face exists.
proof fn lemma_budget_credit_z(s: ReservoirSimulator, p_new: Seq<i64>, dt: int, front: int)
    requires
        s.wf(),
        0 <= front < s.grid_cells@.len(),
        coord_k(s, front) < s.nz - 1,
    ensures
        spec_face_budget(s, p_new, dt, front + (s.nx * s.ny) as int, front + 1)
            == spec_face_budget(s, p_new, dt, front + (s.nx * s.ny) as int, front)
            + s.spec_face_water_flux(
            front,
            front + (s.nx * s.ny) as int,
            Axis::Z,
            coord_k(s, front),
            coord_k(s, front) + 1,
            p_new,
            dt,
        ),
{
    let nx = s.nx as int;
    let ny = s.ny as int;
    let nz = s.nz as int;
    lemma_cell_coords(front, nx, ny, nz);
    let fi = coord_i(s, front);
    let fj = coord_j(s, front);
    let fk = coord_k(s, front);
    assert(front == fk * (nx * ny) + fj * nx + fi);
    lemma_coords_of_flat(nx, ny, nz, fi, fj, fk + 1);
    assert((fk + 1) * (nx * ny) + fj * nx + fi == front + (s.nx * s.ny) as int) by (
    nonlinear_arith)
        requires
            front == fk * (nx * ny) + fj * nx + fi,
            (s.nx * s.ny) as int == nx * ny,
    ;
    assert(nx * ny == 1 ==> nx == 1) by (nonlinear_arith)
        requires
            nx >= 1,
            ny >= 1,
    ;
    assert(nx * ny == nx ==> ny == 1) by (nonlinear_arith)
        requires
            nx >= 1,
            ny >= 1,
    ;
}

/// Advancing the front past a cell leaves every other cell's budget
/// unchanged, unless that cell was just credited by one of the front's
/// faces.
proof fn lemma_budget_untouched(
    s: ReservoirSimulator,
    p_new: Seq<i64>,
    dt: int,
    c: int,
    front: int,
)
    requires
        s.wf(),
        0 <= front < s.grid_cells@.len(),
        0 <= c < s.grid_cells@.len(),
        c != front,
        coord_i(s, front) < s.nx - 1 ==> c != front + 1,
        coord_j(s, front) < s.ny - 1 ==> c != front + s.nx as int,
        coord_k(s, front) < s.nz - 1 ==> c != front + (s.nx * s.ny) as int,
    ensures
        spec_face_budget(s, p_new, dt, c, front + 1) == spec_face_budget(s, p_new, dt, c, front),
{
    let nx = s.nx as int;
    let ny = s.ny as int;
    let nz = s.nz as int;
    let layer = (s.nx * s.ny) as int;
    lemma_cell_coords(front, nx, ny, nz);
    lemma_cell_coords(c, nx, ny, nz);
    let fi = coord_i(s, front);
    let fj = coord_j(s, front);
    let fk = coord_k(s, front);
    assert(fi == (front % (nx * ny)) % nx);
    assert(fj == (front % (nx * ny)) / nx);
    assert(fk == front / (nx * ny));
    assert(front == fk * (nx * ny) + fj * nx + fi);
    if c == front + 1 {
        assert(fi == nx - 1);
        if fj + 1 < ny {
            lemma_coords_of_flat(nx, ny, nz, 0, fj + 1, fk);
            assert(fk * (nx * ny) + (fj + 1) * nx + 0 == c) by (nonlinear_arith)
                requires
                    front == fk * (nx * ny) + fj * nx + fi,
                    fi == nx - 1,
                    c == front + 1,
            ;
        } else {
            assert(fj == ny - 1);
            assert((fk + 1) * (nx * ny) + 0 * nx + 0 == c) by (nonlinear_arith)
                requires
                    front == fk * (nx * ny) + fj * nx + fi,
                    fi == nx - 1,
                    fj == ny - 1,
                    c == front + 1,
                    (s.nx * s.ny) as int == nx * ny,
            ;
            assert(fk + 1 < nz) by (nonlinear_arith)
                requires
                    c == (fk + 1) * (nx * ny) + 0,
                    c < (s.grid_cells@.len() as int),
                    (s.grid_cells@.len() as int) == nx * ny * nz,
                    nx * ny >= 1,
                    fk + 1 >= 1,
            ;
            lemma_coords_of_flat(nx, ny, nz, 0, 0, fk + 1);
        }
        assert(coord_i(s, c) == 0);
    }
    if c == front + nx && c != front + 1 {
        assert(fj == ny - 1);
        assert((fk + 1) * (nx * ny) + 0 * nx + fi == c) by (nonlinear_arith)
            requires
                front == fk * (nx * ny) + fj * nx + fi,
                fj == ny - 1,
                c == front + nx,
                (s.nx * s.ny) as int == nx * ny,
        ;
        assert(fk + 1 < nz) by (nonlinear_arith)
            requires
                c == (fk + 1) * (nx * ny) + fi,
                0 <= fi,
                c < (s.grid_cells@.len() as int),
                (s.grid_cells@.len() as int) == nx * ny * nz,
                nx * ny >= 1,
                fk + 1 >= 1,
        ;
        lemma_coords_of_flat(nx, ny, nz, fi, 0, fk + 1);
        assert(coord_j(s, c) == 0);
    }
    if c == front + layer {
        assert(fk == nz - 1);
        assert(front >= fk * (nx * ny)) by (nonlinear_arith)
            requires
                front == fk * (nx * ny) + fj * nx + fi,
                0 <= fj,
                0 <= fi,
                0 <= nx,
        ;
        assert(c >= (fk + 1) * (nx * ny)) by (nonlinear_arith)
            requires
                front >= fk * (nx * ny),
                c == front + layer,
                layer == nx * ny,
        ;
        assert(nz * (nx * ny) == nx * ny * nz) by (nonlinear_arith);
        assert(false);
    }
}

/// A row-major flat index built from in-range coordinates decomposes
/// back into them.
proof fn lemma_coords_of_flat(nx: int, ny: int, nz: int, i: int, j: int, k: int)
    by (nonlinear_arith)
    requires
        1 <= nx,
        1 <= ny,
        1 <= nz,
        0 <= i < nx,
        0 <= j < ny,
        0 <= k < nz,
    ensures
        ((k * (nx * ny) + j * nx + i) % (nx * ny)) % nx == i,
        ((k * (nx * ny) + j * nx + i) % (nx * ny)) / nx == j,
        (k * (nx * ny) + j * nx + i) / (nx * ny) == k,
{
    let c = k * (nx * ny) + j * nx + i;
    vstd::arithmetic::div_mod::lemma_fundamental_div_mod_converse(c, nx * ny, k, j * nx + i);
    vstd::arithmetic::div_mod::lemma_fundamental_div_mod_converse(j * nx + i, nx, j, i);
}

/// The flat index decomposes into in-range coordinates by layer and row.
proof fn lemma_cell_coords(id: int, nx: int, ny: int, nz: int)
    by (nonlinear_arith)
    requires
        1 <= nx,
        1 <= ny,
        1 <= nz,
        0 <= id < nx * ny * nz,
    ensures
        0 <= id / (nx * ny) < nz,
        0 <= (id % (nx * ny)) / nx < ny,
        0 <= (id % (nx * ny)) % nx < nx,
        (id / (nx * ny)) * (nx * ny) + ((id % (nx * ny)) / nx) * nx + ((id % (nx * ny)) % nx)
            == id,
{
    vstd::arithmetic::div_mod::lemma_fundamental_div_mod(id, nx * ny);
    vstd::arithmetic::div_mod::lemma_fundamental_div_mod(id % (nx * ny), nx);
}

/// The x-neighbours of a cell sit one index away, inside the grid.
proof fn lemma_neighbor_x(nx: int, ny: int, nz: int, i: int, j: int, k: int, id: int)
    by (nonlinear_arith)
    requires
        1 <= nx,
        1 <= ny,
        1 <= nz,
        0 <= i < nx,
        0 <= j < ny,
        0 <= k < nz,
        id == k * (nx * ny) + j * nx + i,
    ensures
        i > 0 ==> 1 <= id && 0 <= id - 1 < nx * ny * nz,
        i < nx - 1 ==> 0 <= id + 1 < nx * ny * nz,
{
}

/// The y-neighbours of a cell sit one row away, inside the grid.
proof fn lemma_neighbor_y(nx: int, ny: int, nz: int, i: int, j: int, k: int, id: int)
    by (nonlinear_arith)
    requires
        1 <= nx,
        1 <= ny,
        1 <= nz,
        0 <= i < nx,
        0 <= j < ny,
        0 <= k < nz,
        id == k * (nx * ny) + j * nx + i,
    ensures
        j > 0 ==> nx <= id && 0 <= id - nx < nx * ny * nz,
        j < ny - 1 ==> 0 <= id + nx < nx * ny * nz,
{
}

/// The z-neighbours of a cell sit one layer away, inside the grid.
proof fn lemma_neighbor_z(nx: int, ny: int, nz: int, i: int, j: int, k: int, id: int)
    by (nonlinear_arith)
    requires
        1 <= nx,
        1 <= ny,
        1 <= nz,
        0 <= i < nx,
        0 <= j < ny,
        0 <= k < nz,
        id == k * (nx * ny) + j * nx + i,
    ensures
        k > 0 ==> nx * ny <= id && 0 <= id - nx * ny < nx * ny * nz,
        k < nz - 1 ==> 0 <= id + nx * ny < nx * ny * nz,
{
}

/// A non-negative numerator over a positive divisor stays non-negative.
pub proof fn lemma_fx_div_nonneg_pos(a: int, b: int)
    by (nonlinear_arith)
    requires
        0 <= a,
        0 < b,
    ensures
        0 <= fx_div_spec(a, b),
{
}

/// A numerator at or above its positive divisor divides to at least one.
pub proof fn lemma_fx_div_ge_one(a: int, b: int)
    by (nonlinear_arith)
    requires
        0 < b <= a,
    ensures
        fx_div_spec(a, b) >= FX_ONE,
{
}

/// Halving keeps the sign.
pub proof fn lemma_fx_scale_half_nonneg(a: int)
    by (nonlinear_arith)
    requires
        0 <= a,
    ensures
        0 <= fx_scale_spec(a, 1, 2),
{
}

/// Doubling keeps the sign.
pub proof fn lemma_fx_scale_two_nonneg(a: int)
    by (nonlinear_arith)
    requires
        0 <= a,
    ensures
        0 <= fx_scale_spec(a, 2, 1),
        fx_scale_spec(a, 2, 1) == sat_i64(2 * a),
{
}

} // verus!
