use rustfoil::closure::{
    BlClosure, Interval, IntervalBlock, Relations, StationCheck, StationSystem, TransitionCheck,
};
use rustfoil::march::config::{xstrip_to_xiforc, MarchConfig, MarchResult};
use rustfoil::march::coupled::{march_coupled, march_fixed_ue_debug};
use rustfoil::march::linear::{build_mrchdu_4x4, gauss_4x4, invert_3x3_opt};
use rustfoil::march::mixed::{march_mixed_du, mrchdu_ue_response};
use rustfoil::march::station::{
    compute_transition_ctau, estimate_transition_ctau, init_stagnation, newton_solve_similarity,
    newton_solve_station, newton_solve_station_transition, step_momentum,
};
use rustfoil::march::surface::{march_fixed_ue, march_surface};
use rustfoil::station::{BlDerivatives, BlStation, FlowType, Matrix};

type Config = MarchConfig<f64>;

const LAMINAR_H: f64 = 2.59;
const TURBULENT_H: f64 = 1.4;

fn blank_station() -> BlStation<f64> {
    BlStation {
        x: 0.0,
        x_coord: 0.0,
        panel_idx: 0,
        u: 0.0,
        theta: 0.0001,
        delta_star: 0.0002,
        ctau: 0.03,
        ampl: 0.0,
        h: 2.0,
        hk: 2.0,
        hs: 0.0,
        hc: 0.0,
        r_theta: 0.0,
        cf: 0.0,
        cd: 0.0,
        us: 0.0,
        cq: 0.05,
        de: 0.0,
        dw: 0.0,
        mass_defect: 0.0,
        is_laminar: true,
        is_turbulent: false,
        is_wake: false,
        derivs: BlDerivatives { h_theta: 0.0, h_delta_star: 0.0, hk_h: 1.0 },
    }
}

/// Friction of a boundary layer with a fixed shape.
fn friction(flow: FlowType, re: f64, u: f64, theta: f64) -> f64 {
    let r_theta = (re * u * theta).max(1.0);
    match flow {
        FlowType::Laminar => 0.441 / r_theta,
        FlowType::Turbulent => 0.0256 / r_theta.powf(0.25),
        FlowType::Wake => 0.0,
    }
}

fn shape(flow: FlowType) -> f64 {
    if flow == FlowType::Laminar {
        LAMINAR_H
    } else {
        TURBULENT_H
    }
}

fn blvar((mut s, flow, _, re): (BlStation<f64>, FlowType, f64, f64)) -> BlStation<f64> {
    s.h = s.delta_star / s.theta;
    s.hk = s.h;
    s.r_theta = re * s.u * s.theta;
    s.cf = friction(flow, re, s.u, s.theta);
    s.mass_defect = s.u * s.delta_star;
    s.derivs.h_theta = -s.h / s.theta;
    s.derivs.h_delta_star = 1.0 / s.theta;
    s.derivs.hk_h = 1.0;
    s
}

fn refreshed(mut s: BlStation<f64>) -> BlStation<f64> {
    s.mass_defect = s.u * s.delta_star;
    s
}

/// Amplification grows by a hundred per unit length past a thickness Reynolds number of 200.
fn amplified(s1: &BlStation<f64>, s2: &BlStation<f64>) -> f64 {
    if s2.r_theta > 200.0 {
        s1.ampl + 100.0 * (s2.x - s1.x)
    } else {
        s1.ampl
    }
}

fn trchek(
    (s1, s2, ncrit, forced, _, _): (
        BlStation<f64>,
        BlStation<f64>,
        f64,
        Option<f64>,
        f64,
        f64,
    ),
) -> TransitionCheck<f64, ()> {
    let ampl2 = amplified(&s1, &s2);
    let by_force = forced.map_or(false, |x| x > s1.x && x <= s2.x);
    let by_growth = ampl2 >= ncrit;
    let xt = if by_force {
        forced.unwrap()
    } else if by_growth {
        s1.x + (s2.x - s1.x) * (ncrit - s1.ampl) / (ampl2 - s1.ampl)
    } else {
        s2.x
    };
    let wf2 = (xt - s1.x) / (s2.x - s1.x);
    TransitionCheck {
        transition: by_force || by_growth,
        ampl2,
        xt,
        wf1: 1.0 - wf2,
        wf2,
        detail: (),
    }
}

fn trchek_stations(
    (s1, s2, ncrit, _, _): (BlStation<f64>, BlStation<f64>, f64, f64, f64),
) -> StationCheck<f64> {
    let ampl2 = amplified(&s1, &s2);
    let transition = ampl2 >= ncrit;
    let xt = if transition {
        Some(s1.x + (s2.x - s1.x) * (ncrit - s1.ampl) / (ampl2 - s1.ampl))
    } else {
        None
    };
    StationCheck { transition, ampl2, xt }
}

/// One implicit step of the momentum equation with the shape of the regime.
fn equations((interval, _, _, re): (Interval<f64, ()>, f64, f64, f64)) -> IntervalBlock<f64> {
    let mut vs2 = [[0.0; 5]; 3];
    let residuals;
    match interval {
        Interval::Similarity { s2, .. } => {
            let theta = 0.27 * (s2.x / (s2.u * re)).sqrt();
            vs2[0][0] = 1.0;
            vs2[1][1] = 1.0;
            vs2[2][1] = -2.2;
            vs2[2][2] = 1.0;
            residuals = [-s2.ampl, theta - s2.theta, 2.2 * s2.theta - s2.delta_star];
        }
        Interval::Transition { s1, s2, .. } => {
            residuals = regular(&mut vs2, &s1, &s2, FlowType::Turbulent, re);
        }
        Interval::Regular { s1, s2, flow } => {
            residuals = regular(&mut vs2, &s1, &s2, flow, re);
        }
    }
    IntervalBlock { residuals, vs1: [[0.0; 5]; 3], vs2, vsx: [0.0; 3] }
}

fn regular(
    vs2: &mut [[f64; 5]; 3],
    s1: &BlStation<f64>,
    s2: &BlStation<f64>,
    flow: FlowType,
    re: f64,
) -> [f64; 3] {
    let h = shape(flow);
    let dx = s2.x - s1.x;
    let momentum = |theta: f64| {
        theta - s1.theta - dx * friction(flow, re, s2.u, theta) / 2.0
            + (h + 2.0) * theta * (s2.u - s1.u) / s2.u
    };
    let eps = 1e-6 * s2.theta;
    let slope = (momentum(s2.theta + eps) - momentum(s2.theta - eps)) / (2.0 * eps);
    vs2[0][0] = 1.0;
    vs2[1][1] = slope;
    vs2[2][1] = -h;
    vs2[2][2] = 1.0;
    let first = if flow == FlowType::Laminar {
        amplified(s1, s2) - s2.ampl
    } else {
        s1.ctau - s2.ctau
    };
    [first, -momentum(s2.theta), h * s2.theta - s2.delta_star]
}

fn hkin((h, msq): (f64, f64)) -> (f64, f64) {
    let denominator = 1.0 + 0.113 * msq;
    ((h - 0.29 * msq) / denominator, 1.0 / denominator)
}

fn axset((_, s2, _): (BlStation<f64>, BlStation<f64>, f64)) -> f64 {
    if s2.r_theta > 200.0 {
        100.0
    } else {
        0.0
    }
}

fn transitions((ampl, ncrit): (f64, f64)) -> bool {
    ampl >= ncrit
}

fn station_system(s: StationSystem<f64>) -> ([[f64; 4]; 4], [f64; 4]) {
    if s.direct {
        build_mrchdu_4x4(&s.vs2, &s.residuals, [0.0, 0.0, 0.0, 1.0], 0.0)
    } else {
        build_mrchdu_4x4(
            &s.vs2,
            &s.residuals,
            [0.0, s.hk2_t, s.hk2_d, s.hk2_u],
            s.htarg - s.hk,
        )
    }
}

fn solve_4x4((mut a, mut b): ([[f64; 4]; 4], [f64; 4])) -> [f64; 4] {
    gauss_4x4(&mut a, &mut b);
    b
}

fn closure() -> impl BlClosure<f64> {
    Relations {
        blank: blank_station(),
        blvar,
        refreshed,
        trchek,
        trchek_stations,
        equations,
        hkin,
        axset,
        transitions,
        station_system,
        solve_4x4,
        sqrt: f64::sqrt,
        exp: f64::exp,
    }
}

fn scaled_identity(n: usize, scale: f64) -> Matrix<f64> {
    let mut rows = vec![vec![0.0; n]; n];
    for i in 0..n {
        rows[i][i] = scale;
    }
    Matrix { nrows: n, ncols: n, rows }
}

#[test]
fn test_march_config_default() {
    let config = Config::default();

    assert_eq!(config.ncrit, 9.0);
    assert_eq!(config.max_iter, 25);
    assert!((config.tolerance - 1.0e-5).abs() < 1e-12);
    assert!((config.hlmax - 3.8).abs() < 1e-10);
    assert!((config.htmax - 2.5).abs() < 1e-10);
    assert!((config.senswt - 1000.0).abs() < 1e-10);
}

#[test]
fn test_march_config_presets() {
    let low_turb = Config::low_turbulence();
    assert_eq!(low_turb.ncrit, 9.0);

    let high_turb = Config::high_turbulence();
    assert_eq!(high_turb.ncrit, 3.0);
}

#[test]
fn test_init_stagnation() {
    let station = init_stagnation(0.01, 0.1, 1e6, &closure());

    assert!(station.theta > 0.0, "theta should be positive");
    assert!(station.delta_star > 0.0, "delta_star should be positive");
    assert!((station.h - 2.2).abs() < 0.1, "H should be ~2.2 for Thwaites");
    assert!(station.is_laminar, "Should start laminar");
    assert!(!station.is_turbulent, "Should not be turbulent");
}

#[test]
fn test_init_stagnation_re_scaling() {
    let station_low = init_stagnation(0.01, 0.1, 1e5, &closure());
    let station_high = init_stagnation(0.01, 0.1, 1e7, &closure());

    assert!(
        station_high.theta < station_low.theta,
        "Higher Re should give smaller theta"
    );
}

#[test]
fn test_march_flat_plate_blasius() {
    let n = 50;
    let x: Vec<f64> = (1..=n).map(|i| 0.01 * i as f64).collect();
    let ue = vec![1.0; n];

    let config = Config::default();
    let result = march_fixed_ue(&x, &ue, 1e6, 0.0, &config, &closure());

    assert_eq!(result.stations.len(), n);

    let last = result.stations.last().unwrap();
    assert!(
        last.h >= 1.0 && last.h <= 4.0,
        "H should be in valid range 1.0-4.0, got {}",
        last.h
    );

    let first = &result.stations[0];
    assert!(last.theta >= first.theta, "theta should grow downstream");

    for station in &result.stations {
        assert!(station.theta > 0.0, "theta should be positive");
        assert!(station.delta_star > 0.0, "delta_star should be positive");
    }
}

#[test]
fn test_march_flat_plate_laminar_stays_laminar() {
    let n = 30;
    let x: Vec<f64> = (1..=n).map(|i| 0.01 * i as f64).collect();
    let ue = vec![1.0; n];

    let config = MarchConfig { ncrit: 9.0, ..Config::default() };

    let result = march_fixed_ue(&x, &ue, 1e4, 0.0, &config, &closure());

    let laminar_count = result.stations.iter().filter(|s| s.is_laminar).count();
    assert!(
        laminar_count >= n / 2,
        "Most stations should be laminar at low Re, got {}/{} laminar",
        laminar_count,
        n
    );
}

#[test]
fn test_march_adverse_pressure_gradient() {
    let n = 40;
    let x: Vec<f64> = (1..=n).map(|i| 0.01 * i as f64).collect();
    let ue: Vec<f64> = x.iter().map(|&xi| 1.0 - 0.8 * xi).collect();

    let config = Config::default();
    let result = march_fixed_ue(&x, &ue, 1e6, 0.0, &config, &closure());

    assert_eq!(result.stations.len(), n);

    let first_theta = result.stations[5].theta;
    let last_theta = result.stations.last().unwrap().theta;
    assert!(
        last_theta > first_theta,
        "theta should increase in APG, first={}, last={}",
        first_theta,
        last_theta
    );

    for station in &result.stations {
        assert!(
            station.h >= 1.0 && station.h <= 45.0,
            "H should be in valid range (1.0-45.0), got {}",
            station.h
        );
    }
}

#[test]
fn test_march_strong_apg_separation() {
    let n = 50;
    let x: Vec<f64> = (1..=n).map(|i| 0.01 * i as f64).collect();
    let ue: Vec<f64> = x.iter().map(|&xi| (1.0 - 1.5 * xi).max(0.1)).collect();

    let config = Config::default();
    let result = march_fixed_ue(&x, &ue, 1e6, 0.0, &config, &closure());

    assert!(result.stations.len() > 0, "March should produce stations");
}

#[test]
fn test_march_transition_detected() {
    let n = 100;
    let x: Vec<f64> = (1..=n).map(|i| 0.005 * i as f64).collect();
    let ue = vec![1.0; n];

    let config = MarchConfig { ncrit: 9.0, ..Config::default() };

    let result = march_fixed_ue(&x, &ue, 5e6, 0.0, &config, &closure());

    if let Some(x_trans) = result.x_transition {
        assert!(x_trans > 0.0, "Transition should be at positive x");
        assert!(
            x_trans <= x[n - 1],
            "Transition x should not lie past last station"
        );
        assert!(result.transition_index.is_some());
    }
}

#[test]
fn test_march_low_ncrit_early_transition() {
    let n = 80;
    let x: Vec<f64> = (1..=n).map(|i| 0.005 * i as f64).collect();
    let ue = vec![1.0; n];

    let config_high = MarchConfig { ncrit: 9.0, ..Config::default() };
    let config_low = MarchConfig { ncrit: 3.0, ..Config::default() };

    let result_high = march_fixed_ue(&x, &ue, 2e6, 0.0, &config_high, &closure());
    let result_low = march_fixed_ue(&x, &ue, 2e6, 0.0, &config_low, &closure());

    let low_tr = result_low.x_transition.is_some();
    let high_tr = result_high.x_transition.is_some();
    assert!(
        low_tr || high_tr,
        "At least one ncrit case should report transition at Re=2e6"
    );
}

#[test]
fn test_march_coupled_basic() {
    let n = 30;
    let x: Vec<f64> = (1..=n).map(|i| 0.01 * i as f64).collect();
    let ue = vec![1.0; n];

    let dij = scaled_identity(n, 0.1);

    let config = Config::default();
    let result = march_coupled(&x, &ue, &dij, 1e6, 0.0, &config, &closure());

    assert_eq!(result.stations.len(), n);

    for station in &result.stations {
        assert!(station.theta > 0.0, "theta should be positive");
        assert!(station.delta_star > 0.0, "delta_star should be positive");
        assert!(station.u > 0.0, "u should be positive");
    }
}

#[test]
fn test_march_coupled_ue_update() {
    let n = 20;
    let x: Vec<f64> = (1..=n).map(|i| 0.02 * i as f64).collect();
    let ue = vec![1.0; n];

    let dij = scaled_identity(n, 0.1);

    let config = Config::default();
    let result = march_coupled(&x, &ue, &dij, 1e6, 0.0, &config, &closure());

    assert!(result.stations.len() == n);

    for station in &result.stations {
        assert!(
            station.u.is_finite() && station.u > 0.0,
            "Ue should be finite and positive"
        );
    }
}

#[test]
fn test_march_minimum_stations() {
    let x = vec![0.01, 0.02];
    let ue = vec![1.0, 1.0];

    let config = Config::default();
    let result = march_fixed_ue(&x, &ue, 1e6, 0.0, &config, &closure());

    assert_eq!(result.stations.len(), 2);
}

#[test]
fn test_march_result_new() {
    let result = MarchResult::<f64>::new(10);

    assert_eq!(result.stations.capacity(), 10);
    assert!(result.x_transition.is_none());
    assert!(result.x_separation.is_none());
    assert!(result.converged);
}

#[test]
fn test_gauss_4x4_identity() {
    let mut a: [[f64; 4]; 4] = [
        [1.0, 0.0, 0.0, 0.0],
        [0.0, 1.0, 0.0, 0.0],
        [0.0, 0.0, 1.0, 0.0],
        [0.0, 0.0, 0.0, 1.0],
    ];
    let mut b: [f64; 4] = [1.0, 2.0, 3.0, 4.0];

    gauss_4x4(&mut a, &mut b);

    assert!((b[0] - 1.0).abs() < 1e-10);
    assert!((b[1] - 2.0).abs() < 1e-10);
    assert!((b[2] - 3.0).abs() < 1e-10);
    assert!((b[3] - 4.0).abs() < 1e-10);
}

#[test]
fn test_gauss_4x4_simple() {
    let mut a: [[f64; 4]; 4] = [
        [2.0, 0.0, 0.0, 0.0],
        [0.0, 2.0, 0.0, 0.0],
        [0.0, 0.0, 2.0, 0.0],
        [0.0, 0.0, 0.0, 2.0],
    ];
    let mut b: [f64; 4] = [2.0, 4.0, 6.0, 8.0];

    gauss_4x4(&mut a, &mut b);

    assert!((b[0] - 1.0).abs() < 1e-10);
    assert!((b[1] - 2.0).abs() < 1e-10);
    assert!((b[2] - 3.0).abs() < 1e-10);
    assert!((b[3] - 4.0).abs() < 1e-10);
}

#[test]
fn gauss_4x4_exchanges_rows_for_the_largest_pivot() {
    let rows: [[f64; 4]; 4] = [
        [0.0, 2.0, 0.0, 1.0],
        [4.0, 1.0, 0.0, 0.0],
        [0.0, 0.0, 0.0, 3.0],
        [1.0, 0.0, 5.0, 0.0],
    ];
    let x = [1.0, 2.0, 3.0, 4.0];
    let mut a = rows;
    let mut b = [0.0; 4];
    for i in 0..4 {
        for j in 0..4 {
            b[i] += rows[i][j] * x[j];
        }
    }
    gauss_4x4(&mut a, &mut b);
    for i in 0..4 {
        assert!((b[i] - x[i]).abs() < 1e-12);
    }
}

#[test]
fn inverse_of_a_matrix_times_the_matrix_is_one() {
    let a = [[2.0, 1.0, 0.0], [0.0, 3.0, 1.0], [1.0, 0.0, 4.0]];
    let inverse = invert_3x3_opt(&a).unwrap();
    for i in 0..3 {
        for j in 0..3 {
            let mut sum: f64 = 0.0;
            for k in 0..3 {
                sum += a[i][k] * inverse[k][j];
            }
            let expected = if i == j { 1.0 } else { 0.0 };
            assert!((sum - expected).abs() < 1e-12);
        }
    }
    assert!(invert_3x3_opt(&[[1.0, 2.0, 3.0], [2.0, 4.0, 6.0], [0.0, 0.0, 1.0]]).is_none());
}

#[test]
fn stagnation_station_follows_the_thwaites_formula() {
    let s = init_stagnation(0.01, 0.1, 1e6, &closure());
    let expected = (0.45f64 / (10.0 * 6.0 * 3.0e6)).sqrt();
    assert!((s.theta - expected).abs() < 1e-15);
    assert_eq!(s.x, 0.01);
    assert_eq!(s.u, 0.1);
}

#[test]
fn similarity_solution_meets_its_equations() {
    let start = init_stagnation(0.01, 0.1, 1e6, &closure());
    let s = newton_solve_similarity(&start, 0.0, 1e6, 25, 1e-10, &closure());
    let theta = 0.27 * (0.01f64 / (0.1 * 1e6)).sqrt();
    assert!((s.theta - theta).abs() < 1e-12);
    assert!((s.delta_star - 2.2 * theta).abs() < 1e-11);
}

#[test]
fn a_station_that_converges_says_so() {
    let mut prev = init_stagnation(0.01, 1.0, 1e5, &closure());
    prev.x = 0.01;
    let (s, converged, dmax) =
        newton_solve_station(&prev, 0.02, 1.0, 1e5, 0.0, true, 25, 1e-5, 3.8, 2.5, &closure());
    assert!(converged);
    assert!(dmax <= 1e-5);
    assert!((s.delta_star / s.theta - LAMINAR_H).abs() < 1e-3);
    let (_, converged, _) =
        newton_solve_station(&prev, 0.02, 1.0, 1e5, 0.0, true, 1, 1e-12, 3.8, 2.5, &closure());
    assert!(!converged);
}

#[test]
fn momentum_step_without_a_distance_keeps_the_station() {
    let s = init_stagnation(0.01, 1.0, 1e5, &closure());
    assert_eq!(step_momentum(&s, 0.01, 1.0, 1e5, 0.0, true), (s.theta, s.delta_star));
}

#[test]
fn momentum_step_grows_by_friction_on_a_plate() {
    let mut s = init_stagnation(0.01, 1.0, 1e5, &closure());
    s.cf = 0.004;
    let (theta, delta_star) = step_momentum(&s, 0.02, 1.0, 1e5, 0.0, true);
    assert!((theta - (s.theta + 0.002 * 0.01)).abs() < 1e-15);
    let h = 0.8 * s.h + 0.2 * 2.61;
    assert!((delta_star - h * theta).abs() < 1e-12);
}

#[test]
fn transition_shear_stress_follows_its_formula() {
    let c = compute_transition_ctau(3.0, 0.05, 1.8, 3.3, &closure());
    assert!((c - 1.8 * (-3.3f64 / 2.0).exp() * 0.05).abs() < 1e-15);
}

#[test]
fn transition_stays_found() {
    let n = 100;
    let x: Vec<f64> = (1..=n).map(|i| 0.005 * i as f64).collect();
    let ue = vec![1.0; n];
    let config = MarchConfig { ncrit: 3.0, ..Config::default() };
    let result = march_fixed_ue(&x, &ue, 5e6, 0.0, &config, &closure());
    let index = result.transition_index.unwrap();
    assert!(index > 1 && index <= n);
    for (i, s) in result.stations.iter().enumerate() {
        assert_eq!(s.is_laminar, i + 1 < index);
    }
    assert_eq!(result.stations[index - 1].ampl, result.stations[n - 1].ampl);
}

#[test]
fn march_surface_passes_the_stagnation_point_over() {
    let n = 20;
    let x: Vec<f64> = (0..n).map(|i| 0.01 * i as f64).collect();
    let mut ue = vec![1.0; n];
    ue[0] = 0.0;
    let result = march_surface(&x, &ue, 1e5, 0.0, &Config::default(), &closure());
    assert_eq!(result.stations.len(), n - 1);
    assert_eq!(result.stations[0].x, x[1]);
    let short = march_surface(&x[..2], &ue[..2], 1e5, 0.0, &Config::default(), &closure());
    assert_eq!(short.stations.len(), 0);
}

#[test]
fn march_with_a_log_gives_as_many_stations() {
    let x: Vec<f64> = (1..=12).map(|i| 0.01 * i as f64).collect();
    let ue = vec![1.0; 12];
    let result = march_fixed_ue_debug(&x, &ue, 1e5, 0.0, &Config::default(), &closure());
    assert_eq!(result.stations.len(), 12);
    let plain = march_fixed_ue(&x, &ue, 1e5, 0.0, &Config::default(), &closure());
    assert_eq!(result.x_transition, plain.x_transition);
    assert_eq!(result.transition_index, plain.transition_index);
    assert_eq!(result.x_separation, plain.x_separation);
    for (a, b) in result.stations.iter().zip(plain.stations.iter()) {
        assert_eq!((a.x, a.u, a.theta, a.delta_star), (b.x, b.u, b.theta, b.delta_star));
    }
}

#[test]
fn transition_is_forced_at_the_given_arc_length() {
    let x: Vec<f64> = (1..=30).map(|i| 0.01 * i as f64).collect();
    let ue = vec![1.0; 30];
    let free = march_fixed_ue(&x, &ue, 1e4, 0.0, &Config::default(), &closure());
    assert_eq!(free.x_transition, Some(x[29]));
    let config = Config { xiforc: Some(0.155), ..Config::default() };
    let result = march_fixed_ue(&x, &ue, 1e4, 0.0, &config, &closure());
    assert_eq!(result.x_transition, Some(0.155));
    assert_eq!(result.transition_index, Some(16));
    let result = march_surface(&x, &ue, 1e4, 0.0, &config, &closure());
    assert_eq!(result.x_transition, Some(0.155));
}

#[test]
fn mixed_march_keeps_its_stations() {
    let x: Vec<f64> = (1..=20).map(|i| 0.01 * i as f64).collect();
    let ue = vec![1.0; 20];
    let closure = closure();
    let mut stations = march_fixed_ue(&x, &ue, 1e5, 0.0, &Config::default(), &closure).stations;
    let result = march_mixed_du(&mut stations, 1e5, 0.0, &Config::default(), &closure);
    assert_eq!(stations.len(), 20);
    assert_eq!(result.stations.len(), 20);
    assert!(result.converged);
    assert!(stations.iter().all(|s| s.theta > 0.0));
}

#[test]
fn velocity_responds_to_the_shape_parameter() {
    let mut vs2 = [[0.0; 5]; 3];
    vs2[0][0] = 1.0;
    vs2[1][1] = 1.0;
    vs2[1][3] = 0.5;
    vs2[2][2] = 1.0;
    vs2[2][3] = 0.25;
    let block = IntervalBlock { residuals: [0.0; 3], vs1: vs2, vs2, vsx: [0.0; 3] };
    let r = mrchdu_ue_response(&block, 1.0, 2.0, 4.0, &closure());
    assert!(r.is_finite());
    assert!(r != 0.0);
}

#[test]
fn forced_transition_lies_between_the_stations() {
    let mut stations = vec![blank_station(); 3];
    for i in 0..3 {
        stations[i].x = 0.5 * i as f64;
        stations[i].x_coord = 0.4 * i as f64;
    }
    assert!((xstrip_to_xiforc(&stations, 0.2) - 0.25).abs() < 1e-12);
    assert_eq!(xstrip_to_xiforc(&stations, 1.0), 1.0);
    assert_eq!(xstrip_to_xiforc(&stations[..0], 0.5), 1.0);
}

#[test]
fn the_shear_stress_at_transition_stays_within_bounds() {
    let mut a = blank_station();
    let mut b = blank_station();
    a.theta = 0.001;
    b.theta = 0.002;
    a.delta_star = 0.003;
    b.delta_star = 0.004;
    a.u = 1.0;
    b.u = 1.0;
    let c = estimate_transition_ctau(&a, &b, 0.5, 0.5, 0.1, 1e9, 3.3, 0.0, 1e6, &closure());
    assert!((1e-7..=0.3).contains(&c));
    a.theta = f64::NAN;
    let c = estimate_transition_ctau(&a, &b, 0.5, 0.5, 0.1, 1.8, 3.3, 0.0, 1e6, &closure());
    assert_eq!(c, 0.03);
}

#[test]
fn only_the_diagonal_of_the_influence_enters() {
    let n = 20;
    let x: Vec<f64> = (1..=n).map(|i| 0.02 * i as f64).collect();
    let ue = vec![1.0; n];
    let mut full = scaled_identity(n, 0.1);
    for i in 0..n {
        for j in 0..n {
            if i != j {
                full.rows[i][j] = 3.0;
            }
        }
    }
    let run = |d: &Matrix<f64>| march_coupled(&x, &ue, d, 1e6, 0.0, &Config::default(), &closure());
    let (a, b) = (run(&scaled_identity(n, 0.1)), run(&full));
    assert_eq!(a.x_transition, b.x_transition);
    for (s, t) in a.stations.iter().zip(b.stations.iter()) {
        assert_eq!((s.u, s.theta, s.delta_star), (t.u, t.theta, t.delta_star));
    }
    let still = run(&scaled_identity(n, 0.0));
    assert!(still.stations.iter().all(|s| s.u == 1.0));
}

#[test]
fn no_critical_amplification_switches_transition_off() {
    let first = init_stagnation(0.01, 1.0, 1e6, &closure());
    let run = |ncrit: f64, x_forced: Option<f64>| {
        newton_solve_station_transition(
            &first, None, 0.02, 1.0, 1e6, 0.0, true, false, ncrit, 25, 1e-5, 3.8, 2.5, x_forced,
            &closure(),
        )
    };
    let (free, a, da) = run(0.0, None);
    let (forced, b, db) = run(0.0, Some(0.015));
    assert_eq!((a, da), (b, db));
    assert_eq!((free.theta, free.delta_star, free.ctau), (forced.theta, forced.delta_star, forced.ctau));
    assert!(forced.is_laminar && !forced.is_turbulent);
}
