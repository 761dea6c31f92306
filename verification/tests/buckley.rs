use ressim::fixed::FX_ONE;
use ressim::sim::ReservoirSimulator;

const FX: i64 = FX_ONE;

/// Fractional flow of water for quadratic Corey curves with
/// S_wc = S_or = 0.1, mu_w = 0.5 cP, mu_o = 1.0 cP.
fn frac_flow(s: f64) -> f64 {
    let u = ((s - 0.1) / 0.8).clamp(0.0, 1.0);
    let lam_w = u * u / 0.5;
    let lam_o = (1.0 - u) * (1.0 - u) / 1.0;
    if lam_w + lam_o <= 0.0 {
        0.0
    } else {
        lam_w / (lam_w + lam_o)
    }
}

/// Pore volumes injected at shock breakthrough by the Welge tangent:
/// the front saturation maximises f_w(S) / (S - S_wc) from connate
/// water, and breakthrough arrives after (S_f - S_wc) / f_w(S_f) pore
/// volumes.
fn welge_breakthrough_pvi() -> f64 {
    let mut best_slope = 0.0f64;
    let mut s = 0.1001f64;
    while s < 0.9 {
        let slope = frac_flow(s) / (s - 0.1);
        if slope > best_slope {
            best_slope = slope;
        }
        s += 0.0001;
    }
    1.0 / best_slope
}

/// Runs the waterflood of the Buckley-Leverett scenario on the given
/// lateral resolution and returns the injected pore volumes when the
/// producing watercut first reaches one percent.
fn breakthrough_pvi(nx: usize, dx_m: f64, dt_days: f64) -> f64 {
    let mut sim = ReservoirSimulator::new(nx, 1, 1);
    let dx_fx = (dx_m * FX as f64) as i64;
    assert!(sim.set_cell_dimensions(dx_fx, 10 * FX, FX).is_ok());
    let k = 2000 * FX;
    assert!(sim.set_permeability_per_layer(&vec![k], &vec![k], &vec![k]).is_ok());
    assert!(sim.set_rel_perm_props(100_000_000, 100_000_000, 2 * FX, 2 * FX).is_ok());
    assert!(sim.set_fluid_viscosities(FX, FX / 2).is_ok());
    assert!(sim.set_capillary_params(0, 2 * FX).is_ok());
    assert!(sim.set_initial_saturation(100_000_000).is_ok());
    sim.set_stability_params(FX / 20, 1000 * FX, 10 * FX);
    assert!(sim.add_well(0, 0, 0, 500 * FX, 100_000_000, 0, true).is_ok());
    assert!(sim.add_well(nx - 1, 0, 0, 100 * FX, 100_000_000, 0, false).is_ok());

    // Total pore volume: nx * dx * 10 * 1 * 0.2 cubic meters.
    let pv_m3 = nx as f64 * dx_m * 10.0 * 1.0 * 0.2;
    let dt_fx = (dt_days * FX as f64) as i64;
    let mut steps = 0;
    loop {
        sim.step(dt_fx);
        steps += 1;
        assert!(steps < 20_000, "no breakthrough before the step budget ran out");
        let history = sim.get_rate_history();
        let last = history.last().unwrap();
        if last.total_production_liquid_reservoir > 0 {
            let wc = last.total_production_water_reservoir as f64
                / last.total_production_liquid_reservoir as f64;
            if wc >= 0.01 {
                break;
            }
        }
    }
    let (cum_inj, _) = sim.get_cumulative_volumes();
    (cum_inj as f64 / FX as f64) / pv_m3
}

#[test]
fn breakthrough_matches_welge_tangent() {
    // 24 x 1 x 1, k = 2000 mD, quadratic Corey with favourable mobility:
    // the injected pore volume at one-percent watercut lies within 25%
    // of the analytic shock breakthrough.
    let analytic = welge_breakthrough_pvi();
    let sim_pvi = breakthrough_pvi(24, 10.0, 0.25);
    let rel_err = (sim_pvi - analytic).abs() / analytic;
    assert!(
        rel_err <= 0.25,
        "coarse breakthrough {} vs analytic {} (rel err {})",
        sim_pvi,
        analytic,
        rel_err
    );
}

#[test]
fn refinement_does_not_worsen_breakthrough() {
    // The same flood on 96 cells with a quarter of the time step must
    // not deviate more from the Welge solution than the coarse run.
    let analytic = welge_breakthrough_pvi();
    let coarse = breakthrough_pvi(24, 10.0, 0.25);
    let fine = breakthrough_pvi(96, 2.5, 0.125);
    let coarse_err = (coarse - analytic).abs() / analytic;
    let fine_err = (fine - analytic).abs() / analytic;
    assert!(
        fine_err <= coarse_err + 1e-9,
        "fine err {} vs coarse err {}",
        fine_err,
        coarse_err
    );
}

