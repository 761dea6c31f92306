use ressim::fixed::FX_ONE;
use ressim::sim::{ReservoirSimulator, WellControlMode};
use ressim::step::WellControlDecision;

const FX: i64 = FX_ONE;

/// Total water volume in place, in fixed-point cubic meters.
fn water_in_place(sim: &ReservoirSimulator) -> i128 {
    let (dx, dy, dz) = (10 * FX, 10 * FX, FX);
    let mut total: i128 = 0;
    for c in &sim.get_grid_state() {
        let vp = c.pore_volume_m3(dx, dy, dz);
        total += (vp as i128) * (c.sat_water as i128) / (FX as i128);
    }
    total
}

#[test]
fn mass_balance_without_wells() {
    // Grid 4 x 4 x 1, defaults; after step(1.0) the total water volume
    // change stays under 1e-6 m^3 (here: exactly zero).
    let mut sim = ReservoirSimulator::new(4, 4, 1);
    let before = water_in_place(&sim);
    sim.step(FX);
    let after = water_in_place(&sim);
    // 1e-6 m^3 expressed in fixed-point units (1e9 units per m^3).
    let tol: i128 = 1_000;
    assert!((after - before).abs() < tol);
    // The committed state keeps the saturation identities.
    for c in &sim.get_grid_state() {
        assert_eq!(c.sat_water + c.sat_oil, FX);
        assert!(100_000_000 <= c.sat_water && c.sat_water <= 900_000_000);
    }
}

#[test]
fn adaptive_sub_stepping_limits_the_advance() {
    // Grid 3 x 1 x 1, uniform permeability 100000 mD, tight saturation
    // limit, strongly opposed pressures: step(30.0) must split into more
    // than one record and give up before the 30 days are exhausted.
    let mut sim = ReservoirSimulator::new(3, 1, 1);
    let k = 100_000 * FX;
    assert!(sim.set_permeability_per_layer(&vec![k], &vec![k], &vec![k]).is_ok());
    sim.set_stability_params(FX / 100, 1000 * FX, 10 * FX);
    assert!(sim.add_well(0, 0, 0, 700 * FX, 100_000_000, 0, true).is_ok());
    assert!(sim.add_well(2, 0, 0, 50 * FX, 100_000_000, 0, false).is_ok());
    sim.step(30 * FX);
    let history = sim.get_rate_history();
    assert!(history.len() > 1);
    let t = sim.get_time();
    assert!(0 < t && t < 30 * FX);
}

#[test]
fn gravity_toggles_the_vertical_pressure_gradient() {
    // Grid 1 x 1 x 2 at uniform 300 bar. Without gravity the column
    // stays flat; with gravity the deeper cell ends up at the higher
    // pressure.
    let mut flat = ReservoirSimulator::new(1, 1, 2);
    flat.set_initial_pressure(300 * FX);
    flat.step(2 * FX);
    let g = flat.get_grid_state();
    let dp = (g[1].pressure - g[0].pressure).abs();
    // 1e-5 bar in fixed-point units.
    assert!(dp < 10_000);

    let mut heavy = ReservoirSimulator::new(1, 1, 2);
    heavy.set_initial_pressure(300 * FX);
    heavy.set_gravity_enabled(true);
    heavy.step(2 * FX);
    let g2 = heavy.get_grid_state();
    assert!(g2[1].pressure > g2[0].pressure);
}

#[test]
fn rate_control_falls_back_to_clamped_bhp() {
    // Single cell, producer target 500 m^3/day, limits [80, 120] bar,
    // cell pressure 100 bar: the resolution must clamp at 80 bar and
    // the resulting rate must stay below the target.
    let mut sim = ReservoirSimulator::new(1, 1, 1);
    sim.set_initial_pressure(100 * FX);
    sim.set_well_control_modes(WellControlMode::Pressure, WellControlMode::Rate);
    assert!(sim.set_target_rates(0, 500 * FX).is_ok());
    assert!(sim.set_bhp_limits(80 * FX, 120 * FX).is_ok());
    assert!(sim.add_well(0, 0, 0, 90 * FX, 100_000_000, 0, false).is_ok());
    let w = sim.get_well_state()[0];
    assert!(w.productivity_index > 0);
    match sim.resolve_well_control(&w, 100 * FX) {
        Some(WellControlDecision::Bhp { bhp_bar }) => assert_eq!(bhp_bar, 80 * FX),
        other => panic!("expected a clamped pressure decision, got {:?}", other),
    }
    let q = sim.well_rate_m3_day(&w, 100 * FX).unwrap();
    assert!(0 < q && q < 500 * FX);
}

#[test]
fn two_bhp_wells_advance_time_monotonically() {
    // Default grid with two opposing pressure-controlled wells: twenty
    // steps of half a day advance time monotonically and fill the rate
    // history.
    let mut sim = ReservoirSimulator::new(10, 10, 1);
    assert!(sim.add_well(0, 0, 0, 400 * FX, 100_000_000, 0, true).is_ok());
    assert!(sim.add_well(9, 9, 0, 100 * FX, 100_000_000, 0, false).is_ok());
    let mut last_t = sim.get_time();
    let mut step_count = 0;
    while step_count < 20 {
        sim.step(FX / 2);
        let t = sim.get_time();
        assert!(t >= last_t);
        last_t = t;
        step_count += 1;
    }
    let history = sim.get_rate_history();
    assert!(!history.is_empty());
    // History is recorded in time order.
    for pair in history.windows(2) {
        assert!(pair[0].time <= pair[1].time);
    }
    // Producer sees positive production, injector positive injection.
    let last = history.last().unwrap();
    assert!(last.total_injection_reservoir >= 0);
    assert!(last.total_production_liquid_reservoir >= 0);
    // The committed state keeps every invariant.
    for c in &sim.get_grid_state() {
        assert_eq!(c.sat_water + c.sat_oil, FX);
        assert!(100_000_000 <= c.sat_water && c.sat_water <= 900_000_000);
    }
}

#[test]
fn solver_warning_reports_iterations() {
    // The warning accessor reflects the last step: either none (the
    // solve met its residual test) or a capped iteration count.
    let mut sim = ReservoirSimulator::new(5, 5, 1);
    assert!(sim.add_well(0, 0, 0, 500 * FX, 100_000_000, 0, true).is_ok());
    sim.step(FX);
    match sim.get_last_solver_warning() {
        None => {}
        Some(w) => assert!(w.iterations <= 1000),
    }
}
