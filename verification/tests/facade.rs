use ressim::fixed::FX_ONE;
use ressim::sim::{ConfigError, ReservoirSimulator, WellControlMode};
use ressim::well::WellError;

const FX: i64 = FX_ONE;

#[test]
fn new_builds_default_grid() {
    let sim = ReservoirSimulator::new(4, 3, 2);
    assert_eq!(sim.get_dimensions(), (4, 3, 2));
    assert_eq!(sim.get_time(), 0);
    let grid = sim.get_grid_state();
    assert_eq!(grid.len(), 24);
    for c in &grid {
        assert_eq!(c.porosity, 200_000_000);
        assert_eq!(c.perm_x, 100 * FX);
        assert_eq!(c.perm_y, 100 * FX);
        assert_eq!(c.perm_z, 10 * FX);
        assert_eq!(c.pressure, 300 * FX);
        assert_eq!(c.sat_water, 300_000_000);
        assert_eq!(c.sat_oil, 700_000_000);
    }
    assert!(sim.get_well_state().is_empty());
    assert!(sim.get_rate_history().is_empty());
    assert!(sim.get_last_solver_warning().is_none());
}

#[test]
fn setters_validate_and_reject_without_mutating() {
    let mut sim = ReservoirSimulator::new(2, 2, 1);
    assert_eq!(sim.set_cell_dimensions(0, 10 * FX, FX), Err(ConfigError::NonPositiveDimension));
    assert!(sim.set_cell_dimensions(5 * FX, 10 * FX, 2 * FX).is_ok());

    // S_wc + S_or >= 1 is rejected.
    assert_eq!(
        sim.set_rel_perm_props(600_000_000, 400_000_000, 2 * FX, 2 * FX),
        Err(ConfigError::InvalidRelPerm)
    );
    assert_eq!(
        sim.set_rel_perm_props(-1, 100_000_000, 2 * FX, 2 * FX),
        Err(ConfigError::InvalidRelPerm)
    );
    assert!(sim.set_rel_perm_props(150_000_000, 250_000_000, 2 * FX, 3 * FX).is_ok());

    assert_eq!(sim.set_fluid_viscosities(0, FX), Err(ConfigError::NonPositiveViscosity));
    assert!(sim.set_fluid_viscosities(2 * FX, FX / 2).is_ok());
    assert_eq!(sim.set_fluid_compressibilities(-1, 0), Err(ConfigError::NegativeCompressibility));
    assert!(sim.set_fluid_compressibilities(10_000, 3_000).is_ok());
    assert_eq!(sim.set_fluid_densities(0, 1000 * FX), Err(ConfigError::NonPositiveDensity));
    assert!(sim.set_fluid_densities(850 * FX, 1010 * FX).is_ok());
    assert_eq!(sim.set_rock_compressibility(-5), Err(ConfigError::NegativeCompressibility));
    assert!(sim.set_rock_compressibility(5_000).is_ok());
    assert_eq!(sim.set_formation_volume_factors(FX, 0), Err(ConfigError::NonPositiveFvf));
    assert!(sim.set_formation_volume_factors(1_100_000_000, FX).is_ok());
    assert_eq!(sim.set_capillary_params(-1, 2 * FX), Err(ConfigError::NegativeEntryPressure));
    assert_eq!(sim.set_capillary_params(5 * FX, 0), Err(ConfigError::NonPositiveLambda));
    assert!(sim.set_capillary_params(3 * FX, 2 * FX).is_ok());

    // Negative target rates are rejected.
    assert_eq!(sim.set_target_rates(-1, 0), Err(ConfigError::NegativeTargetRate));
    assert!(sim.set_target_rates(100 * FX, 200 * FX).is_ok());
    assert_eq!(sim.set_bhp_limits(120 * FX, 80 * FX), Err(ConfigError::BhpLimitsOrder));
    assert!(sim.set_bhp_limits(80 * FX, 120 * FX).is_ok());
}

#[test]
fn initial_state_setters_cover_the_grid() {
    let mut sim = ReservoirSimulator::new(2, 2, 2);
    sim.set_initial_pressure(250 * FX);
    // An out-of-range saturation is rejected and mutates nothing.
    assert_eq!(sim.set_initial_saturation(2 * FX), Err(ConfigError::SaturationOutOfRange));
    for c in &sim.get_grid_state() {
        assert_eq!(c.pressure, 250 * FX);
        assert_eq!(c.sat_water, 300_000_000);
        assert_eq!(c.sat_oil, 700_000_000);
    }
    assert!(sim.set_initial_saturation(400_000_000).is_ok());
    for c in &sim.get_grid_state() {
        assert_eq!(c.sat_water, 400_000_000);
        assert_eq!(c.sat_oil, 600_000_000);
    }
    // Per-layer: wrong length, out-of-range value, and success.
    assert_eq!(
        sim.set_initial_saturation_per_layer(&vec![FX / 2]),
        Err(ConfigError::LayerVectorLength)
    );
    assert_eq!(
        sim.set_initial_saturation_per_layer(&vec![FX / 2, FX + 1]),
        Err(ConfigError::SaturationOutOfRange)
    );
    assert!(sim.set_initial_saturation_per_layer(&vec![FX / 2, FX / 4]).is_ok());
    let grid = sim.get_grid_state();
    for (idx, c) in grid.iter().enumerate() {
        let expect = if idx < 4 { FX / 2 } else { FX / 4 };
        assert_eq!(c.sat_water, expect);
        assert_eq!(c.sat_oil, FX - expect);
    }
}

#[test]
fn permeability_setters_validate_and_fill() {
    let mut sim = ReservoirSimulator::new(3, 2, 2);
    assert_eq!(
        sim.set_permeability_random(0, 10 * FX),
        Err(ConfigError::PermeabilityBoundsInvalid)
    );
    assert_eq!(
        sim.set_permeability_random(20 * FX, 10 * FX),
        Err(ConfigError::PermeabilityBoundsInvalid)
    );
    assert!(sim.set_permeability_random(50 * FX, 150 * FX).is_ok());
    for c in &sim.get_grid_state() {
        assert!(50 * FX <= c.perm_x && c.perm_x <= 150 * FX);
        assert!(50 * FX <= c.perm_y && c.perm_y <= 150 * FX);
        assert!(5 * FX <= c.perm_z && c.perm_z <= 15 * FX);
    }
    assert!(sim.set_permeability_random_seeded(42, 50 * FX, 150 * FX).is_ok());
    for c in &sim.get_grid_state() {
        assert!(50 * FX <= c.perm_x && c.perm_x <= 150 * FX);
    }
    assert_eq!(
        sim.set_permeability_per_layer(&vec![FX], &vec![FX, FX], &vec![FX, FX]),
        Err(ConfigError::LayerVectorLength)
    );
    assert_eq!(
        sim.set_permeability_per_layer(&vec![FX, 0], &vec![FX, FX], &vec![FX, FX]),
        Err(ConfigError::NonPositivePermeability)
    );
    assert!(
        sim.set_permeability_per_layer(
            &vec![200 * FX, 300 * FX],
            &vec![220 * FX, 330 * FX],
            &vec![20 * FX, 30 * FX],
        ).is_ok()
    );
    let grid = sim.get_grid_state();
    assert_eq!(grid[0].perm_x, 200 * FX);
    assert_eq!(grid[0].perm_y, 220 * FX);
    assert_eq!(grid[0].perm_z, 20 * FX);
    assert_eq!(grid[6].perm_x, 300 * FX);
    assert_eq!(grid[11].perm_z, 30 * FX);
}

#[test]
fn add_well_rejects_and_leaves_wells_unchanged() {
    let mut sim = ReservoirSimulator::new(2, 2, 1);
    assert_eq!(
        sim.add_well(2, 0, 0, 300 * FX, 100_000_000, 0, false),
        Err(WellError::IndexIOutOfBounds)
    );
    assert!(sim.get_well_state().is_empty());
    assert_eq!(
        sim.add_well(0, 5, 0, 300 * FX, 100_000_000, 0, false),
        Err(WellError::IndexJOutOfBounds)
    );
    assert_eq!(
        sim.add_well(0, 0, 9, 300 * FX, 100_000_000, 0, false),
        Err(WellError::IndexKOutOfBounds)
    );
    // Radius must be positive.
    assert_eq!(
        sim.add_well(0, 0, 0, 300 * FX, 0, 0, false),
        Err(WellError::RadiusNotPositive)
    );
    // BHP outside [-100, 2000] bar.
    assert_eq!(
        sim.add_well(0, 0, 0, 2001 * FX, 100_000_000, 0, false),
        Err(WellError::BhpOutOfRange)
    );
    assert!(sim.get_well_state().is_empty());
    // A valid well lands with a positive productivity index.
    assert!(sim.add_well(0, 0, 0, 150 * FX, 100_000_000, 0, false).is_ok());
    let wells = sim.get_well_state();
    assert_eq!(wells.len(), 1);
    assert_eq!(wells[0].i, 0);
    assert!(!wells[0].injector);
    assert!(wells[0].productivity_index > 0);
    // A wellbore wider than the equivalent radius is rejected.
    assert_eq!(
        sim.add_well(1, 1, 0, 150 * FX, 100 * FX, 0, false),
        Err(WellError::EquivalentRadiusTooSmall)
    );
    assert_eq!(sim.get_well_state().len(), 1);
}

#[test]
fn load_state_round_trips_through_getters() {
    let mut sim = ReservoirSimulator::new(3, 1, 1);
    assert!(sim.add_well(0, 0, 0, 400 * FX, 100_000_000, 0, true).is_ok());
    sim.set_initial_pressure(310 * FX);
    sim.step(FX / 2);
    let time = sim.get_time();
    let grid = sim.get_grid_state();
    let wells = sim.get_well_state();
    let history = sim.get_rate_history();
    assert!(!history.is_empty());

    let mut other = ReservoirSimulator::new(3, 1, 1);
    assert!(other.load_state(time, grid.clone(), wells.clone(), history.clone()).is_ok());
    assert_eq!(other.get_time(), time);
    let grid2 = other.get_grid_state();
    assert_eq!(grid.len(), grid2.len());
    for (a, b) in grid.iter().zip(grid2.iter()) {
        assert_eq!(a.pressure, b.pressure);
        assert_eq!(a.sat_water, b.sat_water);
        assert_eq!(a.sat_oil, b.sat_oil);
        assert_eq!(a.porosity, b.porosity);
        assert_eq!(a.perm_x, b.perm_x);
    }
    let wells2 = other.get_well_state();
    assert_eq!(wells.len(), wells2.len());
    assert_eq!(wells[0].bhp, wells2[0].bhp);
    let hist2 = other.get_rate_history();
    assert_eq!(history.len(), hist2.len());
    assert_eq!(history.last().unwrap().time, hist2.last().unwrap().time);

    // A mismatched grid is rejected and mutates nothing.
    let mut third = ReservoirSimulator::new(2, 1, 1);
    assert_eq!(
        third.load_state(time, grid.clone(), wells.clone(), history.clone()),
        Err(ConfigError::StateGridLength)
    );
    assert_eq!(third.get_time(), 0);
    assert_eq!(
        third.load_state(-1, Vec::new(), Vec::new(), Vec::new()),
        Err(ConfigError::StateTimeNegative)
    );
}

#[test]
fn control_mode_setters_take_effect() {
    let mut sim = ReservoirSimulator::new(1, 1, 1);
    sim.set_well_control_modes(WellControlMode::Rate, WellControlMode::Pressure);
    sim.set_injector_enabled(false);
    sim.set_gravity_enabled(true);
    sim.set_reference_depth(1500 * FX);
    sim.set_stability_params(FX / 100, 20 * FX, FX / 2);
    // Out-of-range stability limits are clamped, not rejected.
    sim.set_stability_params(0, 0, 100 * FX);
    assert!(sim.add_well(0, 0, 0, 200 * FX, 100_000_000, 0, true).is_ok());
    // Disabled injector: the decision is Disabled and the rate zero.
    let w = sim.get_well_state()[0];
    let d = sim.resolve_well_control(&w, 300 * FX);
    assert!(matches!(d, Some(ressim::step::WellControlDecision::Disabled)));
    assert_eq!(sim.well_rate_m3_day(&w, 300 * FX), Some(0));
}

#[test]
fn productivity_index_rejects_bad_geometry() {
    let sim = ReservoirSimulator::new(1, 1, 1);
    // Zero permeability in the host cell.
    let dead_rock = ressim::grid::GridCell {
        porosity: 200_000_000,
        perm_x: 0,
        perm_y: 100 * FX,
        perm_z: 10 * FX,
        pressure: 300 * FX,
        sat_water: 300_000_000,
        sat_oil: 700_000_000,
    };
    assert_eq!(
        sim.calculate_well_productivity_index(&dead_rock, 100_000_000, 0),
        Err(WellError::PermeabilityNotPositive)
    );
    // A permeability so small its geometric mean vanishes at the
    // working resolution.
    let faint_rock = ressim::grid::GridCell { perm_x: 1, perm_y: 1, ..dead_rock };
    assert_eq!(
        sim.calculate_well_productivity_index(&faint_rock, 100_000_000, 0),
        Err(WellError::AveragePermeabilityZero)
    );
}

#[test]
fn strongly_negative_skin_rejects_the_well() {
    // ln(r_eq / r_w) is near 3 here, so a skin of -10 drives the
    // Peaceman denominator negative and the derived index below zero.
    let mut sim = ReservoirSimulator::new(1, 1, 1);
    assert_eq!(
        sim.add_well(0, 0, 0, 300 * FX, 100_000_000, -10 * FX, false),
        Err(WellError::NegativeProductivityIndex)
    );
    assert!(sim.get_well_state().is_empty());
}

#[test]
fn load_state_rejects_an_inconsistent_cell() {
    let mut sim = ReservoirSimulator::new(1, 1, 1);
    let mut grid = sim.get_grid_state();
    grid[0].sat_oil = grid[0].sat_oil - 5;
    assert_eq!(
        sim.load_state(0, grid, Vec::new(), Vec::new()),
        Err(ConfigError::StateCellInvalid)
    );
    assert_eq!(sim.get_time(), 0);
    // A well outside the grid is rejected as well.
    let grid_ok = sim.get_grid_state();
    let bad_well = ressim::well::Well {
        i: 5,
        j: 0,
        k: 0,
        bhp: 300 * FX,
        productivity_index: 0,
        injector: false,
        well_radius: 100_000_000,
        skin: 0,
    };
    assert_eq!(
        sim.load_state(0, grid_ok, vec![bad_well], Vec::new()),
        Err(ConfigError::StateWellInvalid)
    );
}

#[test]
fn seeded_permeability_is_reproducible() {
    let mut a = ReservoirSimulator::new(4, 4, 1);
    let mut b = ReservoirSimulator::new(4, 4, 1);
    assert!(a.set_permeability_random_seeded(7, 10 * FX, 500 * FX).is_ok());
    assert!(b.set_permeability_random_seeded(7, 10 * FX, 500 * FX).is_ok());
    let ga = a.get_grid_state();
    let gb = b.get_grid_state();
    for (ca, cb) in ga.iter().zip(gb.iter()) {
        assert_eq!(ca.perm_x, cb.perm_x);
        assert_eq!(ca.perm_y, cb.perm_y);
        assert_eq!(ca.perm_z, cb.perm_z);
    }
    // A different seed almost surely gives a different field.
    let mut c = ReservoirSimulator::new(4, 4, 1);
    assert!(c.set_permeability_random_seeded(8, 10 * FX, 500 * FX).is_ok());
    let gc = c.get_grid_state();
    let same = ga.iter().zip(gc.iter()).all(|(x, y)| x.perm_x == y.perm_x);
    assert!(!same);
}
