//! Per-cell rock and fluid state.

use vstd::prelude::*;
use crate::fixed::{fx_mul, fx_mul_spec, FX_ONE};

verus! {

/// One grid block: rock properties and the dynamic pressure/saturation
/// state, all fixed-point scaled by `FX_ONE`.
#[derive(Clone, Copy, PartialEq, Eq, Structural)]
pub struct GridCell {
    /// Porosity, a fraction of bulk volume in [0, 1].
    pub porosity: i64,
    /// Permeability along x [mD].
    pub perm_x: i64,
    /// Permeability along y [mD].
    pub perm_y: i64,
    /// Permeability along z [mD].
    pub perm_z: i64,
    /// Pressure [bar].
    pub pressure: i64,
    /// Water saturation in [0, 1].
    pub sat_water: i64,
    /// Oil saturation in [0, 1]; the committed state keeps
    /// sat_water + sat_oil equal to one.
    pub sat_oil: i64,
}

impl GridCell {
    /// The two saturations are unit-interval values that sum to one, and
    /// the rock properties are non-negative with unit-interval porosity.
    pub open spec fn inv(self) -> bool {
        &&& 0 <= self.porosity <= FX_ONE
        &&& 0 <= self.perm_x
        &&& 0 <= self.perm_y
        &&& 0 <= self.perm_z
        &&& 0 <= self.sat_water <= FX_ONE
        &&& 0 <= self.sat_oil <= FX_ONE
        &&& self.sat_water + self.sat_oil == FX_ONE
    }

    /// The default block as a specification value.
    pub open spec fn default_cell_value() -> GridCell {
        GridCell {
            porosity: 200_000_000i64,
            perm_x: 100_000_000_000i64,
            perm_y: 100_000_000_000i64,
            perm_z: 10_000_000_000i64,
            pressure: 300_000_000_000i64,
            sat_water: 300_000_000i64,
            sat_oil: 700_000_000i64,
        }
    }

    /// The default block: 20% porosity, 100/100/10 mD, 300 bar, 30% water.
    pub fn default_cell() -> (c: GridCell)
        ensures
            c.inv(),
            c == GridCell::default_cell_value(),
    {
        GridCell {
            porosity: 200_000_000i64,
            perm_x: 100 * FX_ONE,
            perm_y: 100 * FX_ONE,
            perm_z: 10 * FX_ONE,
            pressure: 300 * FX_ONE,
            sat_water: 300_000_000i64,
            sat_oil: 700_000_000i64,
        }
    }

    /// The cell's pore volume in cubic meters: the block volume
    /// dx * dy * dz scaled by porosity.
    pub fn pore_volume_m3(&self, dx: i64, dy: i64, dz: i64) -> (r: i64)
        ensures
            r as int == fx_mul_spec(
                fx_mul_spec(fx_mul_spec(dx as int, dy as int), dz as int),
                self.porosity as int,
            ),
            dx >= 0 && dy >= 0 && dz >= 0 && self.porosity >= 0 ==> r >= 0,
    {
        let bulk: i64 = fx_mul(fx_mul(dx, dy), dz);
        let r: i64 = fx_mul(bulk, self.porosity);
        proof {
            if dx >= 0 && dy >= 0 && dz >= 0 && self.porosity >= 0 {
                lemma_fx_mul_nonneg(dx as int, dy as int);
                lemma_fx_mul_nonneg(fx_mul_spec(dx as int, dy as int), dz as int);
                lemma_fx_mul_nonneg(
                    fx_mul_spec(fx_mul_spec(dx as int, dy as int), dz as int),
                    self.porosity as int,
                );
            }
        }
        r
    }
}

/// The fixed-point product of non-negative factors is non-negative.
pub proof fn lemma_fx_mul_nonneg(a: int, b: int)
    by (nonlinear_arith)
    requires
        0 <= a,
        0 <= b,
    ensures
        0 <= fx_mul_spec(a, b),
{
}

} // verus!
