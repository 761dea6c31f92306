//! The simulator facade: grid ownership, validated configuration, and
//! state queries.

use vstd::prelude::*;
use crate::capillary::CapillaryPressure;
use crate::fixed::{clamp_spec, fx_clamp, FX_ONE};
use crate::grid::GridCell;
use crate::relperm::RockFluidProps;
use crate::well::{TimePointRates, Well};

verus! {

/// Hard cap on the number of grid cells, so that per-cell budgets of the
/// wide flux accumulators stay inside `i128`.
pub const N_CELLS_MAX: usize = 1_048_576;

/// Hard cap on the number of wells.
pub const MAX_WELLS: usize = 4096;

/// Fluid PVT properties, fixed-point scaled by `FX_ONE`.
#[derive(Clone, Copy, PartialEq, Eq, Structural)]
pub struct FluidProperties {
    /// Oil viscosity [cP].
    pub mu_o: i64,
    /// Water viscosity [cP].
    pub mu_w: i64,
    /// Oil compressibility [1/bar].
    pub c_o: i64,
    /// Water compressibility [1/bar].
    pub c_w: i64,
    /// Oil density [kg/m^3].
    pub rho_o: i64,
    /// Water density [kg/m^3].
    pub rho_w: i64,
}

impl FluidProperties {
    /// The default PVT set as a specification value.
    pub open spec fn default_value() -> FluidProperties {
        FluidProperties {
            mu_o: 1_000_000_000i64,
            mu_w: 500_000_000i64,
            c_o: 10_000i64,
            c_w: 3_000i64,
            rho_o: 800_000_000_000i64,
            rho_w: 1_000_000_000_000i64,
        }
    }

    /// Positive viscosities and densities, non-negative compressibilities.
    pub open spec fn inv(self) -> bool {
        &&& 0 < self.mu_o
        &&& 0 < self.mu_w
        &&& 0 <= self.c_o
        &&& 0 <= self.c_w
        &&& 0 < self.rho_o
        &&& 0 < self.rho_w
    }

    /// Default PVT: 1 cP oil, 0.5 cP water, weak compressibilities,
    /// 800 and 1000 kg/m^3 densities.
    pub fn default_pvt() -> (r: FluidProperties)
        ensures
            r.inv(),
            r == FluidProperties::default_value(),
    {
        FluidProperties {
            mu_o: FX_ONE,
            mu_w: 500_000_000i64,
            c_o: 10_000i64,
            c_w: 3_000i64,
            rho_o: 800 * FX_ONE,
            rho_w: 1000 * FX_ONE,
        }
    }
}

/// How a well role is driven: by a total-rate target shared among the
/// role's wells, or by each well's own bottom-hole pressure.
#[derive(Clone, Copy, PartialEq, Eq, Structural, Debug)]
pub enum WellControlMode {
    /// Drive the role toward a total volumetric rate.
    Rate,
    /// Drive each well by its bottom-hole pressure.
    Pressure,
}

/// A recoverable numerical diagnostic: the pressure solve stopped at its
/// iteration cap without meeting the residual test.
#[derive(Clone, Copy, PartialEq, Eq, Structural, Debug)]
pub struct SolverWarning {
    /// Iterations the solve ran.
    pub iterations: usize,
    /// Simulation time when the solve was attempted [day].
    pub at_time_days: i64,
}

/// Why a configuration call was rejected. Rejected calls never mutate.
#[derive(Clone, Copy, PartialEq, Eq, Structural, Debug)]
pub enum ConfigError {
    /// A cell dimension is not positive.
    NonPositiveDimension,
    /// A saturation value lies outside [0, 1].
    SaturationOutOfRange,
    /// A per-layer vector does not have one entry per layer.
    LayerVectorLength,
    /// The SCAL set violates its invariant.
    InvalidRelPerm,
    /// A viscosity is not positive.
    NonPositiveViscosity,
    /// A compressibility is negative.
    NegativeCompressibility,
    /// A density is not positive.
    NonPositiveDensity,
    /// A formation volume factor is not positive.
    NonPositiveFvf,
    /// The capillary entry pressure is negative.
    NegativeEntryPressure,
    /// The capillary exponent is not positive.
    NonPositiveLambda,
    /// Permeability bounds must satisfy 0 < min <= max.
    PermeabilityBoundsInvalid,
    /// A permeability value is not positive.
    NonPositivePermeability,
    /// A target rate is negative.
    NegativeTargetRate,
    /// Bottom-hole pressure limits must satisfy min <= max.
    BhpLimitsOrder,
    /// A loaded grid does not match the simulator's cell count.
    StateGridLength,
    /// A loaded cell violates the cell invariant.
    StateCellInvalid,
    /// A loaded well violates the well invariant.
    StateWellInvalid,
    /// A loaded time is negative.
    StateTimeNegative,
}

/// The IMPES reservoir simulator: grid geometry, rock-fluid closures,
/// wells, stability limits, and the accumulated rate history.
pub struct ReservoirSimulator {
    /// Cells along x.
    pub nx: usize,
    /// Cells along y.
    pub ny: usize,
    /// Cells along z.
    pub nz: usize,
    /// Cell size along x [m].
    pub dx: i64,
    /// Cell size along y [m].
    pub dy: i64,
    /// Cell size along z [m].
    pub dz: i64,
    /// Depth of the top layer's centre datum [m].
    pub depth_reference_m: i64,
    /// Rock compressibility [1/bar].
    pub rock_compressibility: i64,
    /// Whether gravity enters face potentials.
    pub gravity_enabled: bool,
    /// The cells, row-major: index = k * nx * ny + j * nx + i.
    pub grid_cells: Vec<GridCell>,
    /// The wells.
    pub wells: Vec<Well>,
    /// Simulation time [day].
    pub time_days: i64,
    /// Fluid PVT properties.
    pub pvt: FluidProperties,
    /// Rock-fluid (SCAL) closure parameters.
    pub scal: RockFluidProps,
    /// Brooks-Corey capillary closure parameters.
    pub pc: CapillaryPressure,
    /// Oil formation volume factor.
    pub b_o: i64,
    /// Water formation volume factor.
    pub b_w: i64,
    /// CFL limit on per-cell saturation change per sub-step.
    pub max_sat_change_per_step: i64,
    /// Limit on per-cell pressure change per sub-step [bar].
    pub max_pressure_change_per_step: i64,
    /// Limit on the relative well-rate change per sub-step.
    pub max_well_rate_change_fraction: i64,
    /// Whether injectors are active at all.
    pub injector_enabled: bool,
    /// Control mode of the injector role.
    pub injector_control: WellControlMode,
    /// Control mode of the producer role.
    pub producer_control: WellControlMode,
    /// Total target injection rate, surface [m^3/day].
    pub target_injector_rate_m3_day: i64,
    /// Total target production rate, surface [m^3/day].
    pub target_producer_rate_m3_day: i64,
    /// Lower bound a rate-controlled well may drive its pressure to [bar].
    pub well_bhp_min: i64,
    /// Upper bound a rate-controlled well may drive its pressure to [bar].
    pub well_bhp_max: i64,
    /// The last pressure-solve convergence warning, if any.
    pub last_solver_warning: Option<SolverWarning>,
    /// Per-sub-step rate records, appended in time order.
    pub rate_history: Vec<TimePointRates>,
    /// Cumulative injected water at reservoir conditions [m^3].
    pub cumulative_injection_m3: i64,
    /// Cumulative produced water at reservoir conditions [m^3].
    pub cumulative_production_m3: i64,
}

impl ReservoirSimulator {
    /// The simulator's well-formedness: a populated bounded grid,
    /// positive geometry, valid closures, wells inside the grid with
    /// non-negative productivity, and every cell satisfying the cell
    /// invariant (unit-interval saturations summing to one).
    pub open spec fn wf(self) -> bool {
        &&& 1 <= self.nx
        &&& 1 <= self.ny
        &&& 1 <= self.nz
        &&& self.nx * self.ny * self.nz == self.grid_cells@.len()
        &&& self.grid_cells@.len() <= N_CELLS_MAX
        &&& self.wells@.len() <= MAX_WELLS
        &&& 0 < self.dx
        &&& 0 < self.dy
        &&& 0 < self.dz
        &&& self.scal.inv()
        &&& self.pc.inv()
        &&& self.pvt.inv()
        &&& 0 <= self.rock_compressibility
        &&& 0 < self.b_o
        &&& 0 < self.b_w
        &&& 0 < self.max_sat_change_per_step
        &&& 0 < self.max_pressure_change_per_step
        &&& 0 < self.max_well_rate_change_fraction
        &&& self.well_bhp_min <= self.well_bhp_max
        &&& 0 <= self.target_injector_rate_m3_day
        &&& 0 <= self.target_producer_rate_m3_day
        &&& 0 <= self.time_days
        &&& forall|w: int|
            0 <= w < self.wells@.len() ==> (#[trigger] self.wells@[w]).valid_for(
                self.nx as int,
                self.ny as int,
                self.nz as int,
            )
        &&& forall|c: int|
            0 <= c < self.grid_cells@.len() ==> (#[trigger] self.grid_cells@[c]).inv()
    }

    /// Row-major flattening of a cell coordinate.
    pub open spec fn flat_idx(self, i: int, j: int, k: int) -> int {
        k * (self.nx * self.ny) + j * self.nx + i
    }

    /// Creates a simulator over an nx * ny * nz grid of default cells:
    /// 10 m x 10 m x 1 m blocks, default closures, no wells, time zero.
    pub fn new(nx: usize, ny: usize, nz: usize) -> (r: ReservoirSimulator)
        requires
            1 <= nx,
            1 <= ny,
            1 <= nz,
            nx * ny * nz <= N_CELLS_MAX,
        ensures
            r.wf(),
            r.nx == nx,
            r.ny == ny,
            r.nz == nz,
            r.dx == 10 * FX_ONE,
            r.dy == 10 * FX_ONE,
            r.dz == FX_ONE,
            r.wells@.len() == 0,
            r.time_days == 0,
            r.rate_history@.len() == 0,
            r.grid_cells@.len() == nx * ny * nz,
            forall|c: int|
                0 <= c < r.grid_cells@.len() ==> (#[trigger] r.grid_cells@[c])
                    == GridCell::default_cell_value(),
            r.gravity_enabled == false,
            r.injector_enabled == true,
            r.injector_control == WellControlMode::Pressure,
            r.producer_control == WellControlMode::Pressure,
            r.scal.s_wc == 100_000_000i64,
            r.scal.s_or == 100_000_000i64,
            r.scal.n_w == 2_000_000_000i64,
            r.scal.n_o == 2_000_000_000i64,
            r.pvt == FluidProperties::default_value(),
            r.pc.p_entry == 5_000_000_000i64,
            r.pc.lambda == 2_000_000_000i64,
            r.b_o == FX_ONE,
            r.b_w == FX_ONE,
            r.depth_reference_m == 0,
            r.rock_compressibility == 0,
            r.max_sat_change_per_step == 100_000_000i64,
            r.max_pressure_change_per_step == 50_000_000_000i64,
            r.max_well_rate_change_fraction == FX_ONE,
            r.target_injector_rate_m3_day == 0,
            r.target_producer_rate_m3_day == 0,
            r.well_bhp_min == -100_000_000_000i64,
            r.well_bhp_max == 2_000_000_000_000i64,
            r.last_solver_warning is None,
            r.cumulative_injection_m3 == 0,
            r.cumulative_production_m3 == 0,
    {
        proof {
            lemma_grid_products(nx as int, ny as int, nz as int);
        }
        let n: usize = nx * ny * nz;
        let mut cells: Vec<GridCell> = Vec::new();
        let mut c: usize = 0;
        while c < n
            invariant
                c <= n,
                cells@.len() == c,
                forall|q: int|
                    0 <= q < c ==> (#[trigger] cells@[q]) == GridCell::default_cell_value(),
            decreases n - c,
        {
            cells.push(GridCell::default_cell());
            c = c + 1;
        }
        ReservoirSimulator {
            nx,
            ny,
            nz,
            dx: 10 * FX_ONE,
            dy: 10 * FX_ONE,
            dz: FX_ONE,
            depth_reference_m: 0,
            rock_compressibility: 0,
            gravity_enabled: false,
            grid_cells: cells,
            wells: Vec::new(),
            time_days: 0,
            pvt: FluidProperties::default_pvt(),
            scal: RockFluidProps::default_scal(),
            pc: CapillaryPressure::default_pc(),
            b_o: FX_ONE,
            b_w: FX_ONE,
            max_sat_change_per_step: 100_000_000i64,
            max_pressure_change_per_step: 50 * FX_ONE,
            max_well_rate_change_fraction: FX_ONE,
            injector_enabled: true,
            injector_control: WellControlMode::Pressure,
            producer_control: WellControlMode::Pressure,
            target_injector_rate_m3_day: 0,
            target_producer_rate_m3_day: 0,
            well_bhp_min: -100 * FX_ONE,
            well_bhp_max: 2000 * FX_ONE,
            last_solver_warning: None,
            rate_history: Vec::new(),
            cumulative_injection_m3: 0,
            cumulative_production_m3: 0,
        }
    }

    /// Flattens an in-bounds coordinate to its cell index.
    pub fn idx(&self, i: usize, j: usize, k: usize) -> (r: usize)
        requires
            self.wf(),
            i < self.nx,
            j < self.ny,
            k < self.nz,
        ensures
            r as int == self.flat_idx(i as int, j as int, k as int),
            r < self.grid_cells@.len(),
    {
        proof {
            lemma_grid_products(self.nx as int, self.ny as int, self.nz as int);
            lemma_flat_idx_bound(
                self.nx as int,
                self.ny as int,
                self.nz as int,
                i as int,
                j as int,
                k as int,
            );
        }
        k * (self.nx * self.ny) + j * self.nx + i
    }

    /// Current simulation time [day].
    pub fn get_time(&self) -> (r: i64)
        ensures
            r == self.time_days,
    {
        self.time_days
    }

    /// A copy of the grid state.
    pub fn get_grid_state(&self) -> (r: Vec<GridCell>)
        ensures
            r@ == self.grid_cells@,
    {
        let n: usize = self.grid_cells.len();
        let mut out: Vec<GridCell> = Vec::new();
        let mut c: usize = 0;
        while c < n
            invariant
                c <= n,
                n == self.grid_cells@.len(),
                out@.len() == c,
                forall|q: int| 0 <= q < c ==> out@[q] == self.grid_cells@[q],
            decreases n - c,
        {
            out.push(self.grid_cells[c]);
            c = c + 1;
        }
        proof {
            assert(out@ =~= self.grid_cells@);
        }
        out
    }

    /// A copy of the well state.
    pub fn get_well_state(&self) -> (r: Vec<Well>)
        ensures
            r@ == self.wells@,
    {
        let n: usize = self.wells.len();
        let mut out: Vec<Well> = Vec::new();
        let mut c: usize = 0;
        while c < n
            invariant
                c <= n,
                n == self.wells@.len(),
                out@.len() == c,
                forall|q: int| 0 <= q < c ==> out@[q] == self.wells@[q],
            decreases n - c,
        {
            out.push(self.wells[c]);
            c = c + 1;
        }
        proof {
            assert(out@ =~= self.wells@);
        }
        out
    }

    /// A copy of the rate history, in append order.
    pub fn get_rate_history(&self) -> (r: Vec<TimePointRates>)
        ensures
            r@ == self.rate_history@,
    {
        let n: usize = self.rate_history.len();
        let mut out: Vec<TimePointRates> = Vec::new();
        let mut c: usize = 0;
        while c < n
            invariant
                c <= n,
                n == self.rate_history@.len(),
                out@.len() == c,
                forall|q: int| 0 <= q < c ==> out@[q] == self.rate_history@[q],
            decreases n - c,
        {
            out.push(self.rate_history[c]);
            c = c + 1;
        }
        proof {
            assert(out@ =~= self.rate_history@);
        }
        out
    }

    /// The grid dimensions (nx, ny, nz).
    pub fn get_dimensions(&self) -> (r: (usize, usize, usize))
        ensures
            r.0 == self.nx,
            r.1 == self.ny,
            r.2 == self.nz,
    {
        (self.nx, self.ny, self.nz)
    }

    /// The last pressure-solve warning, if the most recent step left one.
    pub fn get_last_solver_warning(&self) -> (r: Option<SolverWarning>)
        ensures
            r == self.last_solver_warning,
    {
        self.last_solver_warning
    }

    /// Cumulative injected and produced water at reservoir conditions.
    pub fn get_cumulative_volumes(&self) -> (r: (i64, i64))
        ensures
            r.0 == self.cumulative_injection_m3,
            r.1 == self.cumulative_production_m3,
    {
        (self.cumulative_injection_m3, self.cumulative_production_m3)
    }
}

/// Everything but the cell vector agrees between the two states.
pub open spec fn same_but_cells(a: ReservoirSimulator, b: ReservoirSimulator) -> bool {
    b == (ReservoirSimulator { grid_cells: b.grid_cells, ..a })
}

/// Everything but the well vector agrees between the two states.
pub open spec fn same_but_wells(a: ReservoirSimulator, b: ReservoirSimulator) -> bool {
    b == (ReservoirSimulator { wells: b.wells, ..a })
}

impl ReservoirSimulator {
    /// Sets the cell dimensions; rejected unless all three are positive.
    pub fn set_cell_dimensions(&mut self, dx: i64, dy: i64, dz: i64) -> (r: Result<
        (),
        ConfigError,
    >)
        requires
            old(self).wf(),
        ensures
            final(self).wf(),
            r is Ok <==> (0 < dx && 0 < dy && 0 < dz),
            r is Ok ==> *final(self) == (ReservoirSimulator {
                dx,
                dy,
                dz,
                ..*old(self)
            }),
            r is Err ==> *final(self) == *old(self) && r == Result::<(), ConfigError>::Err(
                ConfigError::NonPositiveDimension,
            ),
    {
        if dx <= 0 || dy <= 0 || dz <= 0 {
            return Err(ConfigError::NonPositiveDimension);
        }
        self.dx = dx;
        self.dy = dy;
        self.dz = dz;
        Ok(())
    }

    /// Overwrites every cell's pressure.
    pub fn set_initial_pressure(&mut self, pressure: i64)
        requires
            old(self).wf(),
        ensures
            final(self).wf(),
            same_but_cells(*old(self), *final(self)),
            final(self).grid_cells@.len() == old(self).grid_cells@.len(),
            forall|c: int|
                0 <= c < old(self).grid_cells@.len() ==> (#[trigger] final(self).grid_cells@[c])
                    == (GridCell { pressure, ..old(self).grid_cells@[c] }),
    {
        let n: usize = self.grid_cells.len();
        let mut c: usize = 0;
        while c < n
            invariant
                c <= n,
                n == self.grid_cells@.len(),
                n == old(self).grid_cells@.len(),
                same_but_cells(*old(self), *self),
                forall|q: int|
                    0 <= q < c ==> (#[trigger] self.grid_cells@[q]) == (GridCell {
                        pressure,
                        ..old(self).grid_cells@[q]
                    }),
                forall|q: int| c <= q < n ==> self.grid_cells@[q] == old(self).grid_cells@[q],
            decreases n - c,
        {
            let cell: GridCell = self.grid_cells[c];
            self.grid_cells.set(c, GridCell { pressure, ..cell });
            c = c + 1;
        }
    }

    /// Overwrites every cell's saturations with the given water value;
    /// oil takes the exact complement. Rejected unless the value lies
    /// in [0, 1]; a rejected call mutates nothing.
    pub fn set_initial_saturation(&mut self, sat_water: i64) -> (r: Result<(), ConfigError>)
        requires
            old(self).wf(),
        ensures
            final(self).wf(),
            r is Ok <==> 0 <= sat_water <= FX_ONE,
            r is Err ==> *final(self) == *old(self) && r == Result::<(), ConfigError>::Err(
                ConfigError::SaturationOutOfRange,
            ),
            r is Ok ==> same_but_cells(*old(self), *final(self)) && final(self).grid_cells@.len()
                == old(self).grid_cells@.len(),
            r is Ok ==> forall|c: int|
                0 <= c < old(self).grid_cells@.len() ==> (#[trigger] final(self).grid_cells@[c])
                    == (GridCell {
                    sat_water,
                    sat_oil: (FX_ONE - sat_water) as i64,
                    ..old(self).grid_cells@[c]
                }),
    {
        if sat_water < 0 || sat_water > FX_ONE {
            return Err(ConfigError::SaturationOutOfRange);
        }
        let so: i64 = FX_ONE - sat_water;
        let n: usize = self.grid_cells.len();
        let mut c: usize = 0;
        while c < n
            invariant
                c <= n,
                n == self.grid_cells@.len(),
                n == old(self).grid_cells@.len(),
                0 <= sat_water <= FX_ONE,
                so == FX_ONE - sat_water,
                same_but_cells(*old(self), *self),
                forall|q: int|
                    0 <= q < c ==> (#[trigger] self.grid_cells@[q]) == (GridCell {
                        sat_water,
                        sat_oil: so,
                        ..old(self).grid_cells@[q]
                    }),
                forall|q: int| c <= q < n ==> self.grid_cells@[q] == old(self).grid_cells@[q],
            decreases n - c,
        {
            let cell: GridCell = self.grid_cells[c];
            self.grid_cells.set(c, GridCell { sat_water, sat_oil: so, ..cell });
            c = c + 1;
        }
        Ok(())
    }

    /// Sets water saturation layer by layer: entry k applies to every
    /// cell of layer k. Rejected unless the vector has one entry per
    /// layer, each inside [0, 1]; a rejected call mutates nothing.
    pub fn set_initial_saturation_per_layer(&mut self, sats: &Vec<i64>) -> (r: Result<
        (),
        ConfigError,
    >)
        requires
            old(self).wf(),
        ensures
            final(self).wf(),
            r is Err ==> *final(self) == *old(self),
            sats@.len() != old(self).nz ==> r == Result::<(), ConfigError>::Err(
                ConfigError::LayerVectorLength,
            ),
            r is Ok <==> (sats@.len() == old(self).nz && forall|k: int|
                0 <= k < sats@.len() ==> 0 <= #[trigger] sats@[k] <= FX_ONE),
            r is Ok ==> same_but_cells(*old(self), *final(self))
                && final(self).grid_cells@.len() == old(self).grid_cells@.len(),
            r is Ok ==> forall|c: int|
                0 <= c < old(self).grid_cells@.len() ==> (#[trigger] final(self).grid_cells@[c])
                    == (GridCell {
                    sat_water: sats@[c / (old(self).nx * old(self).ny) as int],
                    sat_oil: (FX_ONE - sats@[c / (old(self).nx * old(self).ny) as int]) as i64,
                    ..old(self).grid_cells@[c]
                }),
    {
        if sats.len() != self.nz {
            return Err(ConfigError::LayerVectorLength);
        }
        let mut k: usize = 0;
        let nzz: usize = self.nz;
        while k < nzz
            invariant
                k <= nzz,
                nzz == sats@.len(),
                nzz == old(self).nz,
                *self == *old(self),
                old(self).wf(),
                forall|q: int| 0 <= q < k ==> 0 <= #[trigger] sats@[q] <= FX_ONE,
            decreases nzz - k,
        {
            let s: i64 = sats[k];
            if s < 0 || s > FX_ONE {
                return Err(ConfigError::SaturationOutOfRange);
            }
            k = k + 1;
        }
        proof {
            lemma_grid_products(self.nx as int, self.ny as int, self.nz as int);
        }
        let layer: usize = self.nx * self.ny;
        let n: usize = self.grid_cells.len();
        let mut c: usize = 0;
        while c < n
            invariant
                c <= n,
                n == self.grid_cells@.len(),
                n == old(self).grid_cells@.len(),
                layer == old(self).nx * old(self).ny,
                layer >= 1,
                n == layer * old(self).nz,
                nzz == old(self).nz,
                nzz == sats@.len(),
                forall|q: int| 0 <= q < nzz ==> 0 <= #[trigger] sats@[q] <= FX_ONE,
                same_but_cells(*old(self), *self),
                forall|q: int|
                    0 <= q < c ==> (#[trigger] self.grid_cells@[q]) == (GridCell {
                        sat_water: sats@[q / layer as int],
                        sat_oil: (FX_ONE - sats@[q / layer as int]) as i64,
                        ..old(self).grid_cells@[q]
                    }),
                forall|q: int| c <= q < n ==> self.grid_cells@[q] == old(self).grid_cells@[q],
            decreases n - c,
        {
            let kk: usize = c / layer;
            proof {
                lemma_layer_index(c as int, layer as int, nzz as int);
            }
            let s: i64 = sats[kk];
            let cell: GridCell = self.grid_cells[c];
            self.grid_cells.set(c, GridCell { sat_water: s, sat_oil: FX_ONE - s, ..cell });
            c = c + 1;
        }
        proof {
            assert forall|q: int|
                0 <= q < self.grid_cells@.len() implies (#[trigger] self.grid_cells@[q]).inv() by {
                assert(old(self).grid_cells@[q].inv());
                lemma_layer_index(q, layer as int, nzz as int);
                assert(0 <= sats@[q / (layer as int)] <= FX_ONE);
            }
        }
        Ok(())
    }

    /// Sets the Corey SCAL parameters; rejected unless the endpoints are
    /// non-negative with S_wc + S_or < 1 and both exponents positive.
    pub fn set_rel_perm_props(&mut self, s_wc: i64, s_or: i64, n_w: i64, n_o: i64) -> (r: Result<
        (),
        ConfigError,
    >)
        requires
            old(self).wf(),
        ensures
            final(self).wf(),
            r is Ok <==> (RockFluidProps { s_wc, s_or, n_w, n_o }).inv(),
            r is Ok ==> *final(self) == (ReservoirSimulator {
                scal: RockFluidProps { s_wc, s_or, n_w, n_o },
                ..*old(self)
            }),
            r is Err ==> *final(self) == *old(self) && r == Result::<(), ConfigError>::Err(
                ConfigError::InvalidRelPerm,
            ),
    {
        if s_wc < 0 || s_or < 0 || n_w <= 0 || n_o <= 0 {
            return Err(ConfigError::InvalidRelPerm);
        }
        if s_wc >= FX_ONE - s_or {
            return Err(ConfigError::InvalidRelPerm);
        }
        self.scal = RockFluidProps { s_wc, s_or, n_w, n_o };
        Ok(())
    }

    /// Sets the phase viscosities; rejected unless both are positive.
    pub fn set_fluid_viscosities(&mut self, mu_o: i64, mu_w: i64) -> (r: Result<(), ConfigError>)
        requires
            old(self).wf(),
        ensures
            final(self).wf(),
            r is Ok <==> (0 < mu_o && 0 < mu_w),
            r is Ok ==> *final(self) == (ReservoirSimulator {
                pvt: FluidProperties { mu_o, mu_w, ..old(self).pvt },
                ..*old(self)
            }),
            r is Err ==> *final(self) == *old(self) && r == Result::<(), ConfigError>::Err(
                ConfigError::NonPositiveViscosity,
            ),
    {
        if mu_o <= 0 || mu_w <= 0 {
            return Err(ConfigError::NonPositiveViscosity);
        }
        self.pvt = FluidProperties { mu_o, mu_w, ..self.pvt };
        Ok(())
    }

    /// Sets the phase compressibilities; rejected if either is negative.
    pub fn set_fluid_compressibilities(&mut self, c_o: i64, c_w: i64) -> (r: Result<
        (),
        ConfigError,
    >)
        requires
            old(self).wf(),
        ensures
            final(self).wf(),
            r is Ok <==> (0 <= c_o && 0 <= c_w),
            r is Ok ==> *final(self) == (ReservoirSimulator {
                pvt: FluidProperties { c_o, c_w, ..old(self).pvt },
                ..*old(self)
            }),
            r is Err ==> *final(self) == *old(self) && r == Result::<(), ConfigError>::Err(
                ConfigError::NegativeCompressibility,
            ),
    {
        if c_o < 0 || c_w < 0 {
            return Err(ConfigError::NegativeCompressibility);
        }
        self.pvt = FluidProperties { c_o, c_w, ..self.pvt };
        Ok(())
    }

    /// Sets the phase densities; rejected unless both are positive.
    pub fn set_fluid_densities(&mut self, rho_o: i64, rho_w: i64) -> (r: Result<(), ConfigError>)
        requires
            old(self).wf(),
        ensures
            final(self).wf(),
            r is Ok <==> (0 < rho_o && 0 < rho_w),
            r is Ok ==> *final(self) == (ReservoirSimulator {
                pvt: FluidProperties { rho_o, rho_w, ..old(self).pvt },
                ..*old(self)
            }),
            r is Err ==> *final(self) == *old(self) && r == Result::<(), ConfigError>::Err(
                ConfigError::NonPositiveDensity,
            ),
    {
        if rho_o <= 0 || rho_w <= 0 {
            return Err(ConfigError::NonPositiveDensity);
        }
        self.pvt = FluidProperties { rho_o, rho_w, ..self.pvt };
        Ok(())
    }

    /// Sets the rock compressibility; rejected if negative.
    pub fn set_rock_compressibility(&mut self, c_r: i64) -> (r: Result<(), ConfigError>)
        requires
            old(self).wf(),
        ensures
            final(self).wf(),
            r is Ok <==> 0 <= c_r,
            r is Ok ==> *final(self) == (ReservoirSimulator {
                rock_compressibility: c_r,
                ..*old(self)
            }),
            r is Err ==> *final(self) == *old(self) && r == Result::<(), ConfigError>::Err(
                ConfigError::NegativeCompressibility,
            ),
    {
        if c_r < 0 {
            return Err(ConfigError::NegativeCompressibility);
        }
        self.rock_compressibility = c_r;
        Ok(())
    }

    /// Sets the depth datum of the top layer's centre [m].
    pub fn set_reference_depth(&mut self, depth_m: i64)
        requires
            old(self).wf(),
        ensures
            final(self).wf(),
            *final(self) == (ReservoirSimulator { depth_reference_m: depth_m, ..*old(self) }),
    {
        self.depth_reference_m = depth_m;
    }

    /// Sets the formation volume factors; rejected unless both positive.
    pub fn set_formation_volume_factors(&mut self, b_o: i64, b_w: i64) -> (r: Result<
        (),
        ConfigError,
    >)
        requires
            old(self).wf(),
        ensures
            final(self).wf(),
            r is Ok <==> (0 < b_o && 0 < b_w),
            r is Ok ==> *final(self) == (ReservoirSimulator { b_o, b_w, ..*old(self) }),
            r is Err ==> *final(self) == *old(self) && r == Result::<(), ConfigError>::Err(
                ConfigError::NonPositiveFvf,
            ),
    {
        if b_o <= 0 || b_w <= 0 {
            return Err(ConfigError::NonPositiveFvf);
        }
        self.b_o = b_o;
        self.b_w = b_w;
        Ok(())
    }

    /// Sets the Brooks-Corey capillary parameters; rejected unless the
    /// entry pressure is non-negative and the exponent positive.
    pub fn set_capillary_params(&mut self, p_entry: i64, lambda: i64) -> (r: Result<
        (),
        ConfigError,
    >)
        requires
            old(self).wf(),
        ensures
            final(self).wf(),
            r is Ok <==> (0 <= p_entry && 0 < lambda),
            r is Ok ==> *final(self) == (ReservoirSimulator {
                pc: CapillaryPressure { p_entry, lambda },
                ..*old(self)
            }),
            r is Err ==> *final(self) == *old(self),
            p_entry < 0 ==> r == Result::<(), ConfigError>::Err(ConfigError::NegativeEntryPressure),
            p_entry >= 0 && lambda <= 0 ==> r == Result::<(), ConfigError>::Err(
                ConfigError::NonPositiveLambda,
            ),
    {
        if p_entry < 0 {
            return Err(ConfigError::NegativeEntryPressure);
        }
        if lambda <= 0 {
            return Err(ConfigError::NonPositiveLambda);
        }
        self.pc = CapillaryPressure { p_entry, lambda };
        Ok(())
    }

    /// Sets the three sub-step admissibility limits, each clamped into
    /// its sensible range: saturation change into [0.01, 1], pressure
    /// change into [0.01, 1000] bar, relative rate change into
    /// [0.01, 10].
    pub fn set_stability_params(&mut self, max_sat_change: i64, max_pressure_change: i64, max_rate_change: i64)
        requires
            old(self).wf(),
        ensures
            final(self).wf(),
            *final(self) == (ReservoirSimulator {
                max_sat_change_per_step: clamp_spec(
                    max_sat_change as int,
                    10_000_000,
                    FX_ONE as int,
                ) as i64,
                max_pressure_change_per_step: clamp_spec(
                    max_pressure_change as int,
                    10_000_000,
                    1000 * (FX_ONE as int),
                ) as i64,
                max_well_rate_change_fraction: clamp_spec(
                    max_rate_change as int,
                    10_000_000,
                    10 * (FX_ONE as int),
                ) as i64,
                ..*old(self)
            }),
    {
        self.max_sat_change_per_step = fx_clamp(max_sat_change, 10_000_000, FX_ONE);
        self.max_pressure_change_per_step = fx_clamp(max_pressure_change, 10_000_000, 1000 * FX_ONE);
        self.max_well_rate_change_fraction = fx_clamp(max_rate_change, 10_000_000, 10 * FX_ONE);
    }

    /// Turns gravity in the face potentials on or off.
    pub fn set_gravity_enabled(&mut self, enabled: bool)
        requires
            old(self).wf(),
        ensures
            final(self).wf(),
            *final(self) == (ReservoirSimulator { gravity_enabled: enabled, ..*old(self) }),
    {
        self.gravity_enabled = enabled;
    }

    /// Sets the control mode of each well role.
    pub fn set_well_control_modes(&mut self, injector: WellControlMode, producer: WellControlMode)
        requires
            old(self).wf(),
        ensures
            final(self).wf(),
            *final(self) == (ReservoirSimulator {
                injector_control: injector,
                producer_control: producer,
                ..*old(self)
            }),
    {
        self.injector_control = injector;
        self.producer_control = producer;
    }

    /// Enables or disables the injector role altogether.
    pub fn set_injector_enabled(&mut self, enabled: bool)
        requires
            old(self).wf(),
        ensures
            final(self).wf(),
            *final(self) == (ReservoirSimulator { injector_enabled: enabled, ..*old(self) }),
    {
        self.injector_enabled = enabled;
    }

    /// Sets the total target rates; rejected if either is negative.
    pub fn set_target_rates(&mut self, injector_rate: i64, producer_rate: i64) -> (r: Result<
        (),
        ConfigError,
    >)
        requires
            old(self).wf(),
        ensures
            final(self).wf(),
            r is Ok <==> (0 <= injector_rate && 0 <= producer_rate),
            r is Ok ==> *final(self) == (ReservoirSimulator {
                target_injector_rate_m3_day: injector_rate,
                target_producer_rate_m3_day: producer_rate,
                ..*old(self)
            }),
            r is Err ==> *final(self) == *old(self) && r == Result::<(), ConfigError>::Err(
                ConfigError::NegativeTargetRate,
            ),
    {
        if injector_rate < 0 || producer_rate < 0 {
            return Err(ConfigError::NegativeTargetRate);
        }
        self.target_injector_rate_m3_day = injector_rate;
        self.target_producer_rate_m3_day = producer_rate;
        Ok(())
    }

    /// Sets the pressure window a rate-controlled well may reach;
    /// rejected unless min <= max.
    pub fn set_bhp_limits(&mut self, bhp_min: i64, bhp_max: i64) -> (r: Result<(), ConfigError>)
        requires
            old(self).wf(),
        ensures
            final(self).wf(),
            r is Ok <==> bhp_min <= bhp_max,
            r is Ok ==> *final(self) == (ReservoirSimulator {
                well_bhp_min: bhp_min,
                well_bhp_max: bhp_max,
                ..*old(self)
            }),
            r is Err ==> *final(self) == *old(self) && r == Result::<(), ConfigError>::Err(
                ConfigError::BhpLimitsOrder,
            ),
    {
        if bhp_min > bhp_max {
            return Err(ConfigError::BhpLimitsOrder);
        }
        self.well_bhp_min = bhp_min;
        self.well_bhp_max = bhp_max;
        Ok(())
    }
}

impl ReservoirSimulator {
    /// Fills the permeability field with independent uniform draws from
    /// [min, max] for x and y; the vertical permeability takes a tenth
    /// of its own draw. Rejected unless 0 < min <= max.
    pub fn set_permeability_random(&mut self, min_perm: i64, max_perm: i64) -> (r: Result<
        (),
        ConfigError,
    >)
        requires
            old(self).wf(),
        ensures
            final(self).wf(),
            r is Ok <==> (0 < min_perm && min_perm <= max_perm),
            r is Err ==> *final(self) == *old(self) && r == Result::<(), ConfigError>::Err(
                ConfigError::PermeabilityBoundsInvalid,
            ),
            r is Ok ==> same_but_cells(*old(self), *final(self)) && final(self).grid_cells@.len()
                == old(self).grid_cells@.len(),
            r is Ok ==> forall|c: int|
                0 <= c < old(self).grid_cells@.len() ==> perm_randomized(
                    #[trigger] final(self).grid_cells@[c],
                    old(self).grid_cells@[c],
                    min_perm as int,
                    max_perm as int,
                ),
    {
        if min_perm <= 0 || min_perm > max_perm {
            return Err(ConfigError::PermeabilityBoundsInvalid);
        }
        let n: usize = self.grid_cells.len();
        let mut rng: rand::rngs::ThreadRng = crate::rng::thread_rng_handle();
        let mut draws: Vec<i64> = Vec::new();
        let mut q: usize = 0;
        while q < 3 * n
            invariant
                q <= 3 * n,
                n <= N_CELLS_MAX,
                0 < min_perm <= max_perm,
                draws@.len() == q,
                forall|e: int| 0 <= e < q ==> min_perm <= #[trigger] draws@[e] <= max_perm,
            decreases 3 * n - q,
        {
            draws.push(crate::rng::sample_range_thread(&mut rng, min_perm, max_perm));
            q = q + 1;
        }
        self.apply_permeability_draws(&draws, min_perm, max_perm);
        Ok(())
    }

    /// The seeded variant of `set_permeability_random`: the same field
    /// statistics, driven by a deterministic generator.
    pub fn set_permeability_random_seeded(&mut self, seed: u64, min_perm: i64, max_perm: i64) -> (r:
        Result<(), ConfigError>)
        requires
            old(self).wf(),
        ensures
            final(self).wf(),
            r is Ok <==> (0 < min_perm && min_perm <= max_perm),
            r is Err ==> *final(self) == *old(self) && r == Result::<(), ConfigError>::Err(
                ConfigError::PermeabilityBoundsInvalid,
            ),
            r is Ok ==> same_but_cells(*old(self), *final(self)) && final(self).grid_cells@.len()
                == old(self).grid_cells@.len(),
            r is Ok ==> forall|c: int|
                0 <= c < old(self).grid_cells@.len() ==> perm_randomized(
                    #[trigger] final(self).grid_cells@[c],
                    old(self).grid_cells@[c],
                    min_perm as int,
                    max_perm as int,
                ),
    {
        if min_perm <= 0 || min_perm > max_perm {
            return Err(ConfigError::PermeabilityBoundsInvalid);
        }
        let n: usize = self.grid_cells.len();
        let mut rng: rand::rngs::StdRng = crate::rng::rng_from_seed(seed);
        let mut draws: Vec<i64> = Vec::new();
        let mut q: usize = 0;
        while q < 3 * n
            invariant
                q <= 3 * n,
                n <= N_CELLS_MAX,
                0 < min_perm <= max_perm,
                draws@.len() == q,
                forall|e: int| 0 <= e < q ==> min_perm <= #[trigger] draws@[e] <= max_perm,
            decreases 3 * n - q,
        {
            draws.push(crate::rng::sample_range_seeded(&mut rng, min_perm, max_perm));
            q = q + 1;
        }
        self.apply_permeability_draws(&draws, min_perm, max_perm);
        Ok(())
    }

    /// Writes three draws per cell into its permeability components.
    fn apply_permeability_draws(&mut self, draws: &Vec<i64>, min_perm: i64, max_perm: i64)
        requires
            old(self).wf(),
            0 < min_perm <= max_perm,
            draws@.len() == 3 * old(self).grid_cells@.len(),
            forall|q: int| 0 <= q < draws@.len() ==> min_perm <= #[trigger] draws@[q] <= max_perm,
        ensures
            final(self).wf(),
            same_but_cells(*old(self), *final(self)),
            final(self).grid_cells@.len() == old(self).grid_cells@.len(),
            forall|c: int|
                0 <= c < old(self).grid_cells@.len() ==> perm_randomized(
                    #[trigger] final(self).grid_cells@[c],
                    old(self).grid_cells@[c],
                    min_perm as int,
                    max_perm as int,
                ),
    {
        let n: usize = self.grid_cells.len();
        let mut c: usize = 0;
        while c < n
            invariant
                c <= n,
                n == self.grid_cells@.len(),
                n == old(self).grid_cells@.len(),
                0 < min_perm <= max_perm,
                draws@.len() == 3 * n,
                forall|q: int|
                    0 <= q < draws@.len() ==> min_perm <= #[trigger] draws@[q] <= max_perm,
                same_but_cells(*old(self), *self),
                old(self).wf(),
                forall|q: int|
                    0 <= q < c ==> perm_randomized(
                        #[trigger] self.grid_cells@[q],
                        old(self).grid_cells@[q],
                        min_perm as int,
                        max_perm as int,
                    ),
                forall|q: int| c <= q < n ==> self.grid_cells@[q] == old(self).grid_cells@[q],
            decreases n - c,
        {
            let px: i64 = draws[3 * c];
            let py: i64 = draws[3 * c + 1];
            let pz: i64 = draws[3 * c + 2] / 10;
            let cell: GridCell = self.grid_cells[c];
            self.grid_cells.set(c, GridCell { perm_x: px, perm_y: py, perm_z: pz, ..cell });
            c = c + 1;
        }
        proof {
            assert forall|q: int|
                0 <= q < self.grid_cells@.len() implies (#[trigger] self.grid_cells@[q]).inv() by {
                assert(old(self).grid_cells@[q].inv());
                assert(perm_randomized(
                    self.grid_cells@[q],
                    old(self).grid_cells@[q],
                    min_perm as int,
                    max_perm as int,
                ));
            }
        }
    }

    /// Sets the permeability layer by layer: entry k of each vector
    /// applies to every cell of layer k. Rejected unless all three
    /// vectors have one entry per layer and every value is positive.
    pub fn set_permeability_per_layer(
        &mut self,
        perms_x: &Vec<i64>,
        perms_y: &Vec<i64>,
        perms_z: &Vec<i64>,
    ) -> (r: Result<(), ConfigError>)
        requires
            old(self).wf(),
        ensures
            final(self).wf(),
            r is Err ==> *final(self) == *old(self),
            (perms_x@.len() != old(self).nz || perms_y@.len() != old(self).nz || perms_z@.len()
                != old(self).nz) ==> r == Result::<(), ConfigError>::Err(
                ConfigError::LayerVectorLength,
            ),
            r is Ok <==> (perms_x@.len() == old(self).nz && perms_y@.len() == old(self).nz
                && perms_z@.len() == old(self).nz && (forall|q: int|
                0 <= q < old(self).nz ==> #[trigger] layer_perms_positive(
                    perms_x@,
                    perms_y@,
                    perms_z@,
                    q,
                ))),
            r is Ok ==> same_but_cells(*old(self), *final(self)) && final(self).grid_cells@.len()
                == old(self).grid_cells@.len(),
            r is Ok ==> forall|c: int|
                0 <= c < old(self).grid_cells@.len() ==> (#[trigger] final(self).grid_cells@[c])
                    == (GridCell {
                    perm_x: perms_x@[c / (old(self).nx * old(self).ny) as int],
                    perm_y: perms_y@[c / (old(self).nx * old(self).ny) as int],
                    perm_z: perms_z@[c / (old(self).nx * old(self).ny) as int],
                    ..old(self).grid_cells@[c]
                }),
    {
        if perms_x.len() != self.nz || perms_y.len() != self.nz || perms_z.len() != self.nz {
            return Err(ConfigError::LayerVectorLength);
        }
        let nzz: usize = self.nz;
        let mut k: usize = 0;
        while k < nzz
            invariant
                k <= nzz,
                nzz == perms_x@.len(),
                nzz == perms_y@.len(),
                nzz == perms_z@.len(),
                nzz == old(self).nz,
                *self == *old(self),
                old(self).wf(),
                forall|q: int|
                    0 <= q < k ==> #[trigger] layer_perms_positive(perms_x@, perms_y@, perms_z@, q),
            decreases nzz - k,
        {
            if perms_x[k] <= 0 || perms_y[k] <= 0 || perms_z[k] <= 0 {
                proof {
                    assert(!layer_perms_positive(perms_x@, perms_y@, perms_z@, k as int));
                }
                return Err(ConfigError::NonPositivePermeability);
            }
            proof {
                assert(layer_perms_positive(perms_x@, perms_y@, perms_z@, k as int));
            }
            k = k + 1;
        }
        proof {
            lemma_grid_products(self.nx as int, self.ny as int, self.nz as int);
        }
        let layer: usize = self.nx * self.ny;
        let n: usize = self.grid_cells.len();
        let mut c: usize = 0;
        while c < n
            invariant
                c <= n,
                n == self.grid_cells@.len(),
                n == old(self).grid_cells@.len(),
                layer == old(self).nx * old(self).ny,
                layer >= 1,
                n == layer * old(self).nz,
                nzz == old(self).nz,
                nzz == perms_x@.len(),
                nzz == perms_y@.len(),
                nzz == perms_z@.len(),
                forall|q: int|
                    0 <= q < nzz ==> #[trigger] layer_perms_positive(
                        perms_x@,
                        perms_y@,
                        perms_z@,
                        q,
                    ),
                same_but_cells(*old(self), *self),
                forall|q: int|
                    0 <= q < c ==> (#[trigger] self.grid_cells@[q]) == (GridCell {
                        perm_x: perms_x@[q / layer as int],
                        perm_y: perms_y@[q / layer as int],
                        perm_z: perms_z@[q / layer as int],
                        ..old(self).grid_cells@[q]
                    }),
                forall|q: int| c <= q < n ==> self.grid_cells@[q] == old(self).grid_cells@[q],
            decreases n - c,
        {
            let kk: usize = c / layer;
            proof {
                lemma_layer_index(c as int, layer as int, nzz as int);
            }
            let cell: GridCell = self.grid_cells[c];
            self.grid_cells.set(
                c,
                GridCell { perm_x: perms_x[kk], perm_y: perms_y[kk], perm_z: perms_z[kk], ..cell },
            );
            c = c + 1;
        }
        proof {
            assert forall|q: int|
                0 <= q < self.grid_cells@.len() implies (#[trigger] self.grid_cells@[q]).inv() by {
                assert(old(self).grid_cells@[q].inv());
                lemma_layer_index(q, layer as int, nzz as int);
                assert(layer_perms_positive(perms_x@, perms_y@, perms_z@, q / (layer as int)));
            }
        }
        Ok(())
    }

    /// Replaces the whole dynamic state: time, grid, wells, and rate
    /// history, re-deriving the cumulative water volumes by integrating
    /// the history's reservoir-condition rates over its time axis. A
    /// single record carries only per-step rates, so the cumulative
    /// volumes are rebuilt from the whole history, each record weighted
    /// by its distance from the one before it (the first from time
    /// zero). The grid must match the simulator's cell count and every
    /// loaded cell and well must satisfy its invariant; a rejected call
    /// mutates nothing.
    pub fn load_state(
        &mut self,
        time_days: i64,
        grid: Vec<GridCell>,
        wells: Vec<Well>,
        rate_history: Vec<TimePointRates>,
    ) -> (r: Result<(), ConfigError>)
        requires
            old(self).wf(),
        ensures
            final(self).wf(),
            r is Err ==> *final(self) == *old(self),
            time_days < 0 ==> r == Result::<(), ConfigError>::Err(ConfigError::StateTimeNegative),
            time_days >= 0 && grid@.len() != old(self).grid_cells@.len() ==> r == Result::<
                (),
                ConfigError,
            >::Err(ConfigError::StateGridLength),
            r is Ok ==> final(self).grid_cells@ == grid@ && final(self).wells@ == wells@ && final(self).time_days == time_days && final(self).rate_history@ == rate_history@,
            r is Ok ==> final(self).cumulative_injection_m3 as int == spec_cum_injection(
                rate_history@,
                rate_history@.len() as int,
            ) && final(self).cumulative_production_m3 as int == spec_cum_production(
                rate_history@,
                rate_history@.len() as int,
            ),
            r is Ok ==> *final(self) == (ReservoirSimulator {
                grid_cells: final(self).grid_cells,
                wells: final(self).wells,
                time_days,
                rate_history: final(self).rate_history,
                cumulative_injection_m3: final(self).cumulative_injection_m3,
                cumulative_production_m3: final(self).cumulative_production_m3,
                last_solver_warning: None,
                ..*old(self)
            }),
    {
        if time_days < 0 {
            return Err(ConfigError::StateTimeNegative);
        }
        if grid.len() != self.grid_cells.len() {
            return Err(ConfigError::StateGridLength);
        }
        let gn: usize = grid.len();
        let mut c: usize = 0;
        while c < gn
            invariant
                c <= gn,
                gn == grid@.len(),
                gn == old(self).grid_cells@.len(),
                time_days >= 0,
                *self == *old(self),
                old(self).wf(),
                forall|q: int| 0 <= q < c ==> (#[trigger] grid@[q]).inv(),
            decreases gn - c,
        {
            let cell: GridCell = grid[c];
            if cell.porosity < 0 || cell.porosity > FX_ONE || cell.perm_x < 0 || cell.perm_y < 0
                || cell.perm_z < 0 || cell.sat_water < 0 || cell.sat_water > FX_ONE
                || cell.sat_oil < 0 || cell.sat_oil > FX_ONE || cell.sat_water + cell.sat_oil
                != FX_ONE {
                return Err(ConfigError::StateCellInvalid);
            }
            c = c + 1;
        }
        if wells.len() > MAX_WELLS {
            return Err(ConfigError::StateWellInvalid);
        }
        let wn: usize = wells.len();
        let mut w: usize = 0;
        while w < wn
            invariant
                w <= wn,
                wn == wells@.len(),
                grid@.len() == old(self).grid_cells@.len(),
                time_days >= 0,
                *self == *old(self),
                old(self).wf(),
                forall|q: int|
                    0 <= q < w ==> (#[trigger] wells@[q]).valid_for(
                        old(self).nx as int,
                        old(self).ny as int,
                        old(self).nz as int,
                    ),
            decreases wn - w,
        {
            match wells[w].validate(self.nx, self.ny, self.nz) {
                Ok(()) => {},
                Err(_) => {
                    return Err(ConfigError::StateWellInvalid);
                },
            }
            w = w + 1;
        }
        let hn: usize = rate_history.len();
        let mut cum_inj: i64 = 0;
        let mut cum_prod: i64 = 0;
        let mut prev_time: i64 = 0;
        let mut h: usize = 0;
        while h < hn
            invariant
                h <= hn,
                hn == rate_history@.len(),
                grid@.len() == old(self).grid_cells@.len(),
                time_days >= 0,
                *self == *old(self),
                old(self).wf(),
                cum_inj as int == spec_cum_injection(rate_history@, h as int),
                cum_prod as int == spec_cum_production(rate_history@, h as int),
                prev_time as int == if h == 0 {
                    0int
                } else {
                    rate_history@[h as int - 1].time as int
                },
            decreases hn - h,
        {
            let rec: TimePointRates = rate_history[h];
            let dt: i64 = crate::fixed::fx_sub(rec.time, prev_time);
            cum_inj = crate::fixed::fx_add(
                cum_inj,
                crate::fixed::fx_mul(rec.total_injection_reservoir, dt),
            );
            cum_prod = crate::fixed::fx_add(
                cum_prod,
                crate::fixed::fx_mul(rec.total_production_water_reservoir, dt),
            );
            prev_time = rec.time;
            h = h + 1;
        }
        self.grid_cells = grid;
        self.wells = wells;
        self.time_days = time_days;
        self.rate_history = rate_history;
        self.cumulative_injection_m3 = cum_inj;
        self.cumulative_production_m3 = cum_prod;
        self.last_solver_warning = None;
        Ok(())
    }
}

/// Cumulative injected water at reservoir conditions implied by the
/// first n history records: each record's reservoir-condition rate
/// times its time step, the first record measured from time zero.
pub open spec fn spec_cum_injection(h: Seq<TimePointRates>, n: int) -> int
    decreases n,
{
    if n <= 0 {
        0
    } else {
        let prev = if n == 1 {
            0int
        } else {
            h[n - 2].time as int
        };
        crate::fixed::sat_i64(
            spec_cum_injection(h, n - 1) + crate::fixed::fx_mul_spec(
                h[n - 1].total_injection_reservoir as int,
                crate::fixed::sat_i64(h[n - 1].time - prev),
            ),
        )
    }
}

/// Cumulative produced water at reservoir conditions implied by the
/// first n history records.
pub open spec fn spec_cum_production(h: Seq<TimePointRates>, n: int) -> int
    decreases n,
{
    if n <= 0 {
        0
    } else {
        let prev = if n == 1 {
            0int
        } else {
            h[n - 2].time as int
        };
        crate::fixed::sat_i64(
            spec_cum_production(h, n - 1) + crate::fixed::fx_mul_spec(
                h[n - 1].total_production_water_reservoir as int,
                crate::fixed::sat_i64(h[n - 1].time - prev),
            ),
        )
    }
}

/// All three per-layer permeability entries at index q are positive.
pub open spec fn layer_perms_positive(px: Seq<i64>, py: Seq<i64>, pz: Seq<i64>, q: int) -> bool {
    px[q] > 0 && py[q] > 0 && pz[q] > 0
}

/// The randomized permeability relation: x and y inside the bounds, z a
/// tenth of a bounded draw, everything else unchanged.
pub open spec fn perm_randomized(c_new: GridCell, c_old: GridCell, min_perm: int, max_perm: int) -> bool {
    &&& min_perm <= c_new.perm_x <= max_perm
    &&& min_perm <= c_new.perm_y <= max_perm
    &&& min_perm / 10 <= c_new.perm_z <= max_perm / 10
    &&& c_new == (GridCell {
        perm_x: c_new.perm_x,
        perm_y: c_new.perm_y,
        perm_z: c_new.perm_z,
        ..c_old
    })
}

/// Dividing an index below layer * nz by a positive layer size lands in
/// a valid layer.
proof fn lemma_layer_index(c: int, layer: int, nz: int)
    by (nonlinear_arith)
    requires
        0 < layer,
        0 <= c < layer * nz,
    ensures
        0 <= c / layer < nz,
{
}

/// Partial products of in-range grid dimensions stay in range.
pub proof fn lemma_grid_products(nx: int, ny: int, nz: int)
    by (nonlinear_arith)
    requires
        1 <= nx,
        1 <= ny,
        1 <= nz,
        nx * ny * nz <= N_CELLS_MAX,
    ensures
        nx * ny <= N_CELLS_MAX,
        1 <= nx * ny,
        nx <= N_CELLS_MAX,
        ny <= N_CELLS_MAX,
        nz <= N_CELLS_MAX,
{
}

/// The row-major flattening of an in-bounds coordinate is in bounds.
proof fn lemma_flat_idx_bound(nx: int, ny: int, nz: int, i: int, j: int, k: int)
    by (nonlinear_arith)
    requires
        0 <= i < nx,
        0 <= j < ny,
        0 <= k < nz,
    ensures
        0 <= k * (nx * ny) + j * nx + i < nx * ny * nz,
{
}

} // verus!
