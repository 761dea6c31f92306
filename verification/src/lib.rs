//! Two-phase (oil-water) reservoir simulation core on a structured 3-D grid.
//!
//! The engine advances pressure and water saturation in time with an
//! IMPES scheme: an implicit pressure solve over a seven-point stencil,
//! followed by an explicit upstream-weighted saturation update, under an
//! adaptive CFL sub-stepping controller and a dynamic Peaceman well model.
//!
//! All physical quantities are held in fixed-point form: an `i64` carries
//! the value scaled by `fixed::FX_ONE` (1e9), so a pressure of 300 bar is
//! stored as `300 * FX_ONE`. Every arithmetic step is exact integer
//! arithmetic with saturation at the `i64` range, which lets the contracts
//! state bit-precise results and lets the invariants of the committed
//! state (saturation bounds, phase-sum identity, conservation of the
//! face-flux budget) be proved rather than sampled.

pub mod capillary;
pub mod fixed;
pub mod grid;
pub mod relperm;
pub mod rng;
pub mod sim;
pub mod solver;
pub mod step;
pub mod well;

pub use fixed::FX_ONE;
