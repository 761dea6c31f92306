//! Wells and per-step rate records.

use vstd::prelude::*;
use crate::fixed::FX_ONE;

verus! {

/// Lowest bottom-hole pressure a well may be given [bar].
pub const BHP_MIN_BAR: i64 = -100 * FX_ONE;

/// Highest bottom-hole pressure a well may be given [bar].
pub const BHP_MAX_BAR: i64 = 2000 * FX_ONE;

/// Per-well instantaneous rates [m^3/day].
#[derive(Clone, Copy, PartialEq, Eq, Structural)]
pub struct WellRates {
    pub oil_rate: i64,
    pub water_rate: i64,
    pub total_liquid_rate: i64,
}

/// One row of the rate history: per-step totals in surface and reservoir
/// units, the water material-balance residual, and field averages.
#[derive(Clone, Copy, PartialEq, Eq, Structural)]
pub struct TimePointRates {
    /// Simulation time at the end of the sub-step [day].
    pub time: i64,
    /// Produced oil at surface conditions [m^3/day].
    pub total_production_oil: i64,
    /// Produced liquid at surface conditions [m^3/day].
    pub total_production_liquid: i64,
    /// Produced liquid at reservoir conditions [m^3/day].
    pub total_production_liquid_reservoir: i64,
    /// Injected water at surface conditions [m^3/day].
    pub total_injection: i64,
    /// Injected water at reservoir conditions [m^3/day].
    pub total_injection_reservoir: i64,
    /// Produced water at reservoir conditions [m^3/day].
    pub total_production_water_reservoir: i64,
    /// Water material-balance residual over the sub-step [m^3].
    pub material_balance_error_m3: i64,
    /// Average reservoir pressure over the grid [bar].
    pub avg_reservoir_pressure: i64,
    /// Average water saturation over the grid.
    pub avg_water_saturation: i64,
}

/// A well: host-cell indices, boundary pressure, Peaceman productivity
/// index, geometry, and the injector/producer role flag.
#[derive(Clone, Copy, PartialEq, Eq, Structural)]
pub struct Well {
    /// Host cell index along x.
    pub i: usize,
    /// Host cell index along y.
    pub j: usize,
    /// Host cell index along z.
    pub k: usize,
    /// Bottom-hole pressure [bar].
    pub bhp: i64,
    /// Productivity index [m^3/(day*bar)].
    pub productivity_index: i64,
    /// True for an injector, false for a producer.
    pub injector: bool,
    /// Wellbore radius [m].
    pub well_radius: i64,
    /// Skin factor.
    pub skin: i64,
}

/// Why a well was rejected.
#[derive(Clone, Copy, PartialEq, Eq, Structural, Debug)]
pub enum WellError {
    /// The i index reaches past the grid.
    IndexIOutOfBounds,
    /// The j index reaches past the grid.
    IndexJOutOfBounds,
    /// The k index reaches past the grid.
    IndexKOutOfBounds,
    /// The wellbore radius is not positive.
    RadiusNotPositive,
    /// The productivity index is negative.
    NegativeProductivityIndex,
    /// The bottom-hole pressure sits outside [-100, 2000] bar.
    BhpOutOfRange,
    /// The cell permeability is not positive.
    PermeabilityNotPositive,
    /// The Peaceman equivalent radius is not positive.
    EquivalentRadiusNotPositive,
    /// The equivalent radius does not exceed the wellbore radius.
    EquivalentRadiusTooSmall,
    /// The geometric-mean permeability vanished.
    AveragePermeabilityZero,
    /// ln(r_eq / r_w) + skin vanished.
    SingularPiDenominator,
    /// The well list is full.
    TooManyWells,
}

impl Well {
    /// The checks `validate` performs, as one predicate.
    pub open spec fn valid_for(self, nx: int, ny: int, nz: int) -> bool {
        &&& self.i < nx
        &&& self.j < ny
        &&& self.k < nz
        &&& self.well_radius > 0
        &&& self.productivity_index >= 0
        &&& BHP_MIN_BAR <= self.bhp <= BHP_MAX_BAR
    }

    /// Validates the well against the grid bounds and the physical
    /// ranges; reports the first violated check. Accepts exactly the
    /// wells satisfying `valid_for`.
    pub fn validate(&self, nx: usize, ny: usize, nz: usize) -> (r: Result<(), WellError>)
        ensures
            r is Ok <==> self.valid_for(nx as int, ny as int, nz as int),
            self.i >= nx ==> r == Result::<(), WellError>::Err(WellError::IndexIOutOfBounds),
    {
        if self.i >= nx {
            return Err(WellError::IndexIOutOfBounds);
        }
        if self.j >= ny {
            return Err(WellError::IndexJOutOfBounds);
        }
        if self.k >= nz {
            return Err(WellError::IndexKOutOfBounds);
        }
        if self.well_radius <= 0 {
            return Err(WellError::RadiusNotPositive);
        }
        if self.productivity_index < 0 {
            return Err(WellError::NegativeProductivityIndex);
        }
        if self.bhp < BHP_MIN_BAR || self.bhp > BHP_MAX_BAR {
            return Err(WellError::BhpOutOfRange);
        }
        Ok(())
    }
}

} // verus!
