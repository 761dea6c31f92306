use ressim::fixed::{fx_abs, fx_add, fx_clamp, fx_div, fx_ln, fx_mul, fx_powf_unit, fx_sqrt, fx_sub, FX_ONE};
use ressim::capillary::{CapillaryPressure, PC_CONNATE_BAR};
use ressim::relperm::RockFluidProps;

const FX: i64 = FX_ONE;

#[test]
fn fixed_multiplication_is_exact() {
    assert_eq!(fx_mul(2 * FX, 3 * FX), 6 * FX);
    assert_eq!(fx_mul(-2 * FX, 3 * FX), -6 * FX);
    assert_eq!(fx_mul(FX / 2, FX / 2), FX / 4);
    assert_eq!(fx_mul(0, 123456789), 0);
    // Saturation at the i64 range instead of overflow.
    assert_eq!(fx_mul(i64::MAX, 2 * FX), i64::MAX);
    assert_eq!(fx_mul(i64::MAX, -2 * FX), i64::MIN);
}

#[test]
fn fixed_division_is_exact() {
    assert_eq!(fx_div(6 * FX, 3 * FX), 2 * FX);
    assert_eq!(fx_div(-6 * FX, 3 * FX), -2 * FX);
    assert_eq!(fx_div(FX, 3 * FX), 333_333_333);
    assert_eq!(fx_div(5 * FX, 0), 0);
}

#[test]
fn fixed_add_sub_saturate() {
    assert_eq!(fx_add(FX, FX), 2 * FX);
    assert_eq!(fx_add(i64::MAX, 1), i64::MAX);
    assert_eq!(fx_sub(i64::MIN, 1), i64::MIN);
    assert_eq!(fx_sub(3 * FX, FX), 2 * FX);
    assert_eq!(fx_abs(-7), 7);
    assert_eq!(fx_clamp(5, 0, 3), 3);
    assert_eq!(fx_clamp(-5, 0, 3), 0);
}

#[test]
fn fixed_sqrt_hits_perfect_squares() {
    assert_eq!(fx_sqrt(4 * FX), 2 * FX);
    assert_eq!(fx_sqrt(FX), FX);
    assert_eq!(fx_sqrt(0), 0);
    assert_eq!(fx_sqrt(-3), 0);
    // sqrt(2) to fixed-point precision.
    let r = fx_sqrt(2 * FX);
    assert!((r - 1_414_213_562).abs() <= 1);
}

#[test]
fn fixed_power_matches_integer_exponents() {
    // 0.5^2 = 0.25 exactly.
    assert_eq!(fx_powf_unit(FX / 2, 2 * FX), FX / 4);
    // Exponent one is the identity.
    assert_eq!(fx_powf_unit(123_456_789, FX), 123_456_789);
    // Endpoints.
    assert_eq!(fx_powf_unit(0, 2 * FX), 0);
    assert_eq!(fx_powf_unit(FX, 7 * FX), FX);
    // Fractional exponent: 0.25^0.5 = 0.5 to fixed precision.
    let r = fx_powf_unit(FX / 4, FX / 2);
    assert!((r - FX / 2).abs() < 1000);
}

#[test]
fn fixed_ln_behaves_at_landmarks() {
    assert_eq!(fx_ln(FX), 0);
    // ln 2 to a relative accuracy of 1e-6.
    let r = fx_ln(2 * FX);
    assert!((r - 693_147_181).abs() < 1000);
    let r_half = fx_ln(FX / 2);
    assert!((r_half + 693_147_181).abs() < 1000);
    assert!(fx_ln(20 * FX) > 0);
}

#[test]
fn corey_endpoints_are_exact() {
    let scal = RockFluidProps { s_wc: 100_000_000, s_or: 100_000_000, n_w: 2 * FX, n_o: 2 * FX };
    // k_rw(S_wc) = 0 and k_rw(1 - S_or) = 1.
    assert_eq!(scal.k_rw(100_000_000), 0);
    assert_eq!(scal.k_rw(900_000_000), FX);
    // Symmetric for oil.
    assert_eq!(scal.k_ro(900_000_000), 0);
    assert_eq!(scal.k_ro(100_000_000), FX);
    // Inputs beyond the endpoints saturate.
    assert_eq!(scal.k_rw(0), 0);
    assert_eq!(scal.k_rw(FX), FX);
    // Midpoint of the default quadratic curves: S_eff = 0.5 -> 0.25.
    assert_eq!(scal.k_rw(500_000_000), FX / 4);
    assert_eq!(scal.k_ro(500_000_000), FX / 4);
}

#[test]
fn relperm_stays_in_unit_interval() {
    let scal = RockFluidProps { s_wc: 50_000_000, s_or: 200_000_000, n_w: 3 * FX, n_o: FX / 2 };
    let mut s = 0i64;
    while s <= FX {
        let krw = scal.k_rw(s);
        let kro = scal.k_ro(s);
        assert!(0 <= krw && krw <= FX);
        assert!(0 <= kro && kro <= FX);
        s += FX / 20;
    }
}

#[test]
fn capillary_pressure_endpoints() {
    let scal = RockFluidProps { s_wc: 100_000_000, s_or: 100_000_000, n_w: 2 * FX, n_o: 2 * FX };
    let pc = CapillaryPressure { p_entry: 5 * FX, lambda: 2 * FX };
    // P_c(1 - S_or) = 0.
    assert_eq!(pc.capillary_pressure(900_000_000, &scal), 0);
    // At or below connate water the curve plateaus at 1000 bar.
    assert_eq!(pc.capillary_pressure(100_000_000, &scal), PC_CONNATE_BAR);
    assert_eq!(pc.capillary_pressure(0, &scal), PC_CONNATE_BAR);
    // In between the curve is within [0, 500 bar] and decreasing-ish:
    let mid = pc.capillary_pressure(500_000_000, &scal);
    let high = pc.capillary_pressure(800_000_000, &scal);
    assert!(0 < high && high <= mid && mid <= 500 * FX);
    // S_eff = 0.5 -> 5 * 0.5^(-1/2) = 7.0710678... bar.
    assert!((mid - 7_071_067_811).abs() < 100);
}
