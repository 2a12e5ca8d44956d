use rustfoil::closure::{
    BlClosure, Interval, IntervalBlock, Relations, StationCheck, StationSystem, TransitionCheck,
};
use rustfoil::global_newton::newton_state::{CanonicalNewtonRow, CanonicalNewtonStateView};
use rustfoil::global_newton::system::GlobalNewtonSystem;
use rustfoil::global_newton::update::{
    apply_global_updates_from_view, GlobalUpdateResult, RowForms,
};
use rustfoil::march::config::{MarchConfig, MarchResult};
use rustfoil::march::linear::{build_mrchdu_4x4, gauss_4x4};
use rustfoil::station::{BlDerivatives, BlStation, FlowType, Matrix};
use rustfoil::viscal::control::{
    deltas_are_finite, find_separation, has_diverged, refresh_transition_state_from_march, Forces,
    SolverError, ViscousResult, ViscousSolverConfig,
};
use rustfoil::viscal::operating::{
    angle_limit, compute_operating_correction, compute_trial_cl_terms,
    operating_sensitivity_for_mode, OperatingMode,
};
use rustfoil::viscal::panel::{
    build_panel_gamma_from_stations, build_panel_values_from_surface_values, GammaWriteOrder,
};
use rustfoil::viscal::single::{
    solve_surface, solve_viscous, solve_viscous_polar_sequential, CouplingFunctions,
    SurfaceCoupling,
};
use rustfoil::viscal::state::{
    NewtonForm, StateFunctions, StateOperations, StateShape, StateSummary, SurfaceEvents,
};
use rustfoil::viscal::two_surfaces::{
    forced_transition, judge, solve_viscous_two_surfaces, wake_gaps, Airfoil, Outside, Verdict,
};

const LAMINAR_H: f64 = 2.59;
const TURBULENT_H: f64 = 1.4;

fn blank_station() -> BlStation<f64> {
    BlStation {
        x: 0.0,
        x_coord: 0.0,
        panel_idx: 0,
        u: 0.0,
        theta: 0.0001,
        delta_star: 0.0002,
        ctau: 0.03,
        ampl: 0.0,
        h: 2.0,
        hk: 2.0,
        hs: 0.0,
        hc: 0.0,
        r_theta: 0.0,
        cf: 0.0,
        cd: 0.0,
        us: 0.0,
        cq: 0.05,
        de: 0.0,
        dw: 0.0,
        mass_defect: 0.0,
        is_laminar: true,
        is_turbulent: false,
        is_wake: false,
        derivs: BlDerivatives { h_theta: 0.0, h_delta_star: 0.0, hk_h: 1.0 },
    }
}

/// Friction of a boundary layer with a fixed shape.
fn friction(flow: FlowType, re: f64, u: f64, theta: f64) -> f64 {
    let r_theta = (re * u * theta).max(1.0);
    match flow {
        FlowType::Laminar => 0.441 / r_theta,
        FlowType::Turbulent => 0.0256 / r_theta.powf(0.25),
        FlowType::Wake => 0.0,
    }
}

fn shape(flow: FlowType) -> f64 {
    if flow == FlowType::Laminar {
        LAMINAR_H
    } else {
        TURBULENT_H
    }
}

fn blvar((mut s, flow, _, re): (BlStation<f64>, FlowType, f64, f64)) -> BlStation<f64> {
    s.h = s.delta_star / s.theta;
    s.hk = s.h;
    s.r_theta = re * s.u * s.theta;
    s.cf = friction(flow, re, s.u, s.theta);
    s.mass_defect = s.u * s.delta_star;
    s.derivs.h_theta = -s.h / s.theta;
    s.derivs.h_delta_star = 1.0 / s.theta;
    s.derivs.hk_h = 1.0;
    s
}

fn refreshed(mut s: BlStation<f64>) -> BlStation<f64> {
    s.mass_defect = s.u * s.delta_star;
    s
}

/// Amplification grows by a hundred per unit length past a thickness Reynolds number of 200.
fn amplified(s1: &BlStation<f64>, s2: &BlStation<f64>) -> f64 {
    if s2.r_theta > 200.0 {
        s1.ampl + 100.0 * (s2.x - s1.x)
    } else {
        s1.ampl
    }
}

fn trchek(
    (s1, s2, ncrit, forced, _, _): (
        BlStation<f64>,
        BlStation<f64>,
        f64,
        Option<f64>,
        f64,
        f64,
    ),
) -> TransitionCheck<f64, ()> {
    let ampl2 = amplified(&s1, &s2);
    let by_force = forced.map_or(false, |x| x > s1.x && x <= s2.x);
    let by_growth = ampl2 >= ncrit;
    let xt = if by_force {
        forced.unwrap()
    } else if by_growth {
        s1.x + (s2.x - s1.x) * (ncrit - s1.ampl) / (ampl2 - s1.ampl)
    } else {
        s2.x
    };
    let wf2 = (xt - s1.x) / (s2.x - s1.x);
    TransitionCheck {
        transition: by_force || by_growth,
        ampl2,
        xt,
        wf1: 1.0 - wf2,
        wf2,
        detail: (),
    }
}

fn trchek_stations(
    (s1, s2, ncrit, _, _): (BlStation<f64>, BlStation<f64>, f64, f64, f64),
) -> StationCheck<f64> {
    let ampl2 = amplified(&s1, &s2);
    let transition = ampl2 >= ncrit;
    let xt = if transition {
        Some(s1.x + (s2.x - s1.x) * (ncrit - s1.ampl) / (ampl2 - s1.ampl))
    } else {
        None
    };
    StationCheck { transition, ampl2, xt }
}

/// One implicit step of the momentum equation with the shape of the regime.
fn equations((interval, _, _, re): (Interval<f64, ()>, f64, f64, f64)) -> IntervalBlock<f64> {
    let mut vs2 = [[0.0; 5]; 3];
    let residuals;
    match interval {
        Interval::Similarity { s2, .. } => {
            let theta = 0.27 * (s2.x / (s2.u * re)).sqrt();
            vs2[0][0] = 1.0;
            vs2[1][1] = 1.0;
            vs2[2][1] = -2.2;
            vs2[2][2] = 1.0;
            residuals = [-s2.ampl, theta - s2.theta, 2.2 * s2.theta - s2.delta_star];
        }
        Interval::Transition { s1, s2, .. } => {
            residuals = regular(&mut vs2, &s1, &s2, FlowType::Turbulent, re);
        }
        Interval::Regular { s1, s2, flow } => {
            residuals = regular(&mut vs2, &s1, &s2, flow, re);
        }
    }
    IntervalBlock { residuals, vs1: [[0.0; 5]; 3], vs2, vsx: [0.0; 3] }
}

fn regular(
    vs2: &mut [[f64; 5]; 3],
    s1: &BlStation<f64>,
    s2: &BlStation<f64>,
    flow: FlowType,
    re: f64,
) -> [f64; 3] {
    let h = shape(flow);
    let dx = s2.x - s1.x;
    let momentum = |theta: f64| {
        theta - s1.theta - dx * friction(flow, re, s2.u, theta) / 2.0
            + (h + 2.0) * theta * (s2.u - s1.u) / s2.u
    };
    let eps = 1e-6 * s2.theta;
    let slope = (momentum(s2.theta + eps) - momentum(s2.theta - eps)) / (2.0 * eps);
    vs2[0][0] = 1.0;
    vs2[1][1] = slope;
    vs2[2][1] = -h;
    vs2[2][2] = 1.0;
    let first = if flow == FlowType::Laminar {
        amplified(s1, s2) - s2.ampl
    } else {
        s1.ctau - s2.ctau
    };
    [first, -momentum(s2.theta), h * s2.theta - s2.delta_star]
}

fn hkin((h, msq): (f64, f64)) -> (f64, f64) {
    let denominator = 1.0 + 0.113 * msq;
    ((h - 0.29 * msq) / denominator, 1.0 / denominator)
}

fn axset((_, s2, _): (BlStation<f64>, BlStation<f64>, f64)) -> f64 {
    if s2.r_theta > 200.0 {
        100.0
    } else {
        0.0
    }
}

fn transitions((ampl, ncrit): (f64, f64)) -> bool {
    ampl >= ncrit
}

fn station_system(s: StationSystem<f64>) -> ([[f64; 4]; 4], [f64; 4]) {
    if s.direct {
        build_mrchdu_4x4(&s.vs2, &s.residuals, [0.0, 0.0, 0.0, 1.0], 0.0)
    } else {
        build_mrchdu_4x4(
            &s.vs2,
            &s.residuals,
            [0.0, s.hk2_t, s.hk2_d, s.hk2_u],
            s.htarg - s.hk,
        )
    }
}

fn solve_4x4((mut a, mut b): ([[f64; 4]; 4], [f64; 4])) -> [f64; 4] {
    gauss_4x4(&mut a, &mut b);
    b
}

fn closure() -> impl BlClosure<f64> {
    Relations {
        blank: blank_station(),
        blvar,
        refreshed,
        trchek,
        trchek_stations,
        equations,
        hkin,
        axset,
        transitions,
        station_system,
        solve_4x4,
        sqrt: f64::sqrt,
        exp: f64::exp,
    }
}

fn scaled_identity(n: usize, scale: f64) -> Matrix<f64> {
    let mut rows = vec![vec![0.0; n]; n];
    for i in 0..n {
        rows[i][i] = scale;
    }
    Matrix { nrows: n, ncols: n, rows }
}


fn config(reynolds: f64) -> ViscousSolverConfig<f64> {
    ViscousSolverConfig {
        reynolds,
        msq: 0.0,
        ncrit: 9.0,
        hk_max_laminar: 3.8,
        hk_max_turbulent: 2.5,
        relaxation: 1.0,
        max_iterations: 20,
        tolerance: 1e-4,
        allow_separation: true,
        operating_mode: OperatingMode::PrescribedAlpha,
        xstrip_upper: 1.0,
        xstrip_lower: 1.0,
    }
}

fn step(
    stations: &Vec<BlStation<f64>>,
    _: &Vec<FlowType>,
    _: f64,
    _: f64,
    _: &Matrix<f64>,
    _: &Vec<f64>,
) -> Vec<[f64; 3]> {
    stations.iter().map(|s| [0.0, 0.01 * s.theta, 0.0]).collect()
}

fn update(
    stations: &Vec<BlStation<f64>>,
    deltas: &Vec<[f64; 3]>,
    _: &Vec<f64>,
    _: &Matrix<f64>,
    relaxation: f64,
) -> (Vec<BlStation<f64>>, f64) {
    let moved = stations
        .iter()
        .zip(deltas.iter())
        .map(|(s, d)| BlStation { theta: s.theta + relaxation * d[1], ..*s })
        .collect();
    (moved, 0.01)
}

fn friction_drag(stations: &Vec<BlStation<f64>>, _: ViscousSolverConfig<f64>) -> Forces<f64> {
    let cd_friction = stations.iter().map(|s| s.cf.max(0.0)).sum::<f64>() / stations.len() as f64;
    Forces { cl: 0.0, cd: cd_friction, cm: 0.0, cd_friction, cd_pressure: 0.0 }
}

fn coupling() -> impl SurfaceCoupling<f64> {
    CouplingFunctions { step, update, forces: friction_drag }
}

fn flat_plate_setup(n: usize, re: f64) -> (Vec<BlStation<f64>>, Vec<f64>, Matrix<f64>) {
    let stations = (0..n)
        .map(|i| {
            let mut s = blank_station();
            s.x = i as f64 / (n - 1) as f64;
            s.x_coord = s.x;
            s.panel_idx = i;
            s.u = 1.0;
            s.theta = 0.664 * (s.x.max(1e-4) / re).sqrt();
            s.delta_star = LAMINAR_H * s.theta;
            s
        })
        .collect();
    (stations, vec![1.0; n], scaled_identity(n, 0.1))
}

#[test]
fn test_solve_viscous_flat_plate() {
    let config = config(1e6);
    let (mut stations, ue, dij) = flat_plate_setup(50, config.reynolds);

    let result = solve_viscous(&mut stations, &ue, &dij, &config, &closure(), &coupling());

    assert!(result.is_ok());
    let result = result.unwrap();

    assert!(result.iterations > 0);
    assert!(result.cd_friction >= 0.0, "Friction drag should be non-negative");
}

#[test]
fn test_solve_viscous_invalid_reynolds() {
    let config = config(-1.0);
    let (mut stations, ue, dij) = flat_plate_setup(50, 1e6);

    let result = solve_viscous(&mut stations, &ue, &dij, &config, &closure(), &coupling());

    assert!(matches!(result, Err(SolverError::InvalidReynolds)));
}

#[test]
fn test_solve_surface() {
    let config = config(1e6);

    let n = 40;
    let x: Vec<f64> = (0..n).map(|i| 0.01 * i as f64).collect();
    let ue = vec![1.0; n];

    let result = solve_surface(&x, &ue, &config, &closure());

    assert!(result.is_ok());
    let march = result.unwrap();

    assert_eq!(march.stations.len(), n);
    assert!(march.converged);
}

#[test]
fn test_viscous_result_is_attached() {
    let mut result = ViscousResult {
        alpha: 0.0,
        cl: 0.0,
        cd: 0.01,
        cm: 0.0,
        x_tr_upper: 0.3,
        x_tr_lower: 0.5,
        iterations: 10,
        residual: 1e-5,
        converged: true,
        cd_friction: 0.008,
        cd_pressure: 0.002,
        x_separation: None,
    };

    assert!(result.is_attached());

    result.x_separation = Some(0.8);
    assert!(!result.is_attached());
}

#[test]
fn test_polar_sequential() {
    let config = config(1e6);

    let setups: Vec<_> = vec![0.0, 2.0, 4.0]
        .into_iter()
        .map(|alpha| {
            let (stations, ue, dij) = flat_plate_setup(30, config.reynolds);
            (alpha, stations, ue, dij)
        })
        .collect();

    let results = solve_viscous_polar_sequential(setups, &config, &closure(), &coupling());

    assert_eq!(results.len(), 3);

    for result in &results {
        assert!(result.is_ok());
    }
    assert_eq!(results[1].as_ref().unwrap().alpha, 2.0);
}

#[test]
fn test_build_panel_gamma_respects_write_order() {
    let mut upper = vec![blank_station(), blank_station()];
    let mut lower = vec![blank_station(), blank_station()];

    upper[1].panel_idx = 3;
    upper[1].u = 0.8;
    lower[1].panel_idx = 3;
    lower[1].u = 0.6;

    let preserve = build_panel_gamma_from_stations(
        &upper,
        &lower,
        8,
        GammaWriteOrder::PreserveFirstWriter,
    );
    let lower_overwrites = build_panel_gamma_from_stations(
        &upper,
        &lower,
        8,
        GammaWriteOrder::LowerOverwritesShared,
    );

    assert!((preserve[3] - 0.8).abs() < 1e-12);
    assert!((lower_overwrites[3] + 0.6).abs() < 1e-12);
}

#[test]
fn a_failed_point_leaves_the_polar_alone() {
    let config = config(1e6);
    let (stations, ue, dij) = flat_plate_setup(30, config.reynolds);
    let (short, short_ue, short_dij) = flat_plate_setup(2, config.reynolds);
    let setups = vec![(1.0, short, short_ue, short_dij), (2.0, stations, ue, dij)];
    let results = solve_viscous_polar_sequential(setups, &config, &closure(), &coupling());
    assert!(matches!(results[0], Err(SolverError::InsufficientPanels)));
    assert_eq!(results[1].as_ref().unwrap().alpha, 2.0);
}

#[test]
fn separation_is_an_error_where_it_is_not_allowed() {
    let mut config = config(1e6);
    config.allow_separation = false;
    let coupled = CouplingFunctions {
        step,
        update: |stations: &Vec<BlStation<f64>>,
                 _: &Vec<[f64; 3]>,
                 _: &Vec<f64>,
                 _: &Matrix<f64>,
                 _: f64| {
            let mut moved = stations.clone();
            moved[5].cf = -0.001;
            (moved, 0.0)
        },
        forces: friction_drag,
    };
    let (mut stations, ue, dij) = flat_plate_setup(20, 1e6);
    let x_sep = stations[5].x;
    let result = solve_viscous(&mut stations, &ue, &dij, &config, &closure(), &coupled);
    match result {
        Err(SolverError::BoundaryLayerSeparation { x_sep: x }) => assert_eq!(x, x_sep),
        _ => panic!("separation expected"),
    }
}

#[test]
fn the_last_node_of_closed_values_is_zero() {
    let mut upper = vec![blank_station(), blank_station()];
    let lower = vec![blank_station(), blank_station()];
    upper[1].panel_idx = 3;
    let values = build_panel_values_from_surface_values(
        &upper,
        &lower,
        &[0.0, 0.7],
        &[0.0, 0.4],
        4,
    );
    assert_eq!(values, vec![-0.4, 0.0, 0.0, 0.0]);
}

#[test]
fn prescribed_lift_asks_for_a_correction_within_half_a_degree() {
    let mode = OperatingMode::PrescribedCl { target_cl: 0.5 };
    assert_eq!(angle_limit::<f64>(), 0.5f64.to_radians());
    let small: f64 = compute_operating_correction(mode, 0.501, 6.0, 0.2);
    assert!((small - 0.001 / -6.2).abs() < 1e-15);
    assert_eq!(compute_operating_correction(mode, 2.0, 6.0, 0.2), -0.5f64.to_radians());
    assert_eq!(compute_operating_correction(mode, 2.0, 0.0, 0.0), 0.0);
    assert_eq!(
        compute_operating_correction(OperatingMode::PrescribedAlpha, 2.0, 6.0, 0.2),
        0.0
    );
    let (u, l) = operating_sensitivity_for_mode(mode, &[1.0, 2.0], &[3.0]);
    assert_eq!((u, l), (vec![1.0, 2.0], vec![3.0]));
    let (u, l) =
        operating_sensitivity_for_mode(OperatingMode::PrescribedAlpha, &[1.0, 2.0], &[3.0]);
    assert_eq!((u, l), (vec![0.0, 0.0], vec![0.0]));
}

#[test]
fn a_residual_is_judged_by_size_and_growth() {
    assert!(matches!(judge(1e-5, 1e-4, 0, 1.0), Verdict::Converged));
    assert!(matches!(judge(0.5, 1e-4, 3, 0.01), Verdict::Continue));
    assert!(matches!(judge(0.5, 1e-4, 6, 0.01), Verdict::Rejected));
    assert!(matches!(judge(f64::NAN, 1e-4, 0, 0.01), Verdict::Rejected));
    assert!(has_diverged(1e11));
    assert!(!has_diverged(1.0));
}

#[test]
fn the_wake_gap_closes_behind_the_edge() {
    let gaps: Vec<f64> = wake_gaps(0.02, &[0.9, 1.0, 1.0, 1.025, 1.05, 1.2], 1);
    assert!((gaps[0] - 0.02).abs() < 1e-15);
    assert!((gaps[1] - 0.02 * (3.0 - 2.0 * 0.5) * 0.25).abs() < 1e-12);
    assert!(gaps[2].abs() < 1e-12);
    assert_eq!(gaps[3], 0.0);
}

#[test]
fn a_march_is_copied_behind_the_stagnation_point() {
    let mut stations = vec![blank_station(), blank_station(), blank_station()];
    stations[1].x = 0.1;
    stations[2].x = 0.2;
    let mut march = MarchResult::<f64>::new(2);
    for theta in [0.001, 0.002] {
        march.stations.push(BlStation { theta, ..blank_station() });
    }
    refresh_transition_state_from_march(&mut stations, &march);
    assert_eq!(stations[0].theta, blank_station().theta);
    assert_eq!(stations[1].theta, 0.001);
    assert_eq!(stations[2].theta, 0.002);
    assert_eq!(stations[2].x, 0.2);
}

#[test]
fn steps_and_separation_are_found() {
    assert!(deltas_are_finite(&vec![[0.0, 1.0, 2.0]]));
    assert!(!deltas_are_finite(&vec![[0.0, f64::INFINITY, 2.0]]));
    let mut stations = vec![blank_station(), blank_station()];
    assert!(find_separation(&stations).is_none());
    stations[1].cf = -1.0;
    stations[1].x = 0.3;
    assert_eq!(find_separation(&stations), Some(0.3));
}

#[test]
fn transition_is_forced_before_the_trailing_edge_only() {
    let mut stations = vec![blank_station(), blank_station()];
    stations[1].x = 0.8;
    stations[1].x_coord = 1.0;
    assert!(forced_transition(&stations, 1.0).is_none());
    assert!((forced_transition(&stations, 0.5).unwrap() - 0.4).abs() < 1e-12);
}

type Row = CanonicalNewtonRow<f64>;

#[derive(Clone)]
struct State {
    upper: Vec<Row>,
    lower: Vec<Row>,
    log: Vec<&'static str>,
}

fn row(i: usize, n: usize) -> Row {
    let x = i as f64 / (n - 1) as f64;
    let theta = 0.001 + 0.001 * x;
    CanonicalNewtonRow {
        x,
        x_coord: x,
        panel_idx: i,
        uedg: 1.0,
        uinv: 1.0,
        uinv_a: 0.0,
        theta,
        dstr: LAMINAR_H * theta,
        ctau_or_ampl: 0.0,
        ctau: 0.0,
        ampl: 0.0,
        mass: LAMINAR_H * theta,
        h: LAMINAR_H,
        hk: LAMINAR_H,
        hs: 0.0,
        hc: 0.0,
        r_theta: 0.0,
        cf: 0.0,
        cd: 0.0,
        us: 0.0,
        cq: 0.0,
        de: 0.0,
        dw: 0.0,
        is_laminar: true,
        is_turbulent: false,
        is_wake: false,
        derivs: BlDerivatives { h_theta: 0.0, h_delta_star: 0.0, hk_h: 1.0 },
    }
}

fn as_station((r, _): (Row, FlowType)) -> BlStation<f64> {
    BlStation {
        x: r.x,
        x_coord: r.x_coord,
        panel_idx: r.panel_idx,
        u: r.uedg,
        theta: r.theta,
        delta_star: r.dstr,
        mass_defect: r.mass,
        ..blank_station()
    }
}

fn overwrite((r, s): (Row, BlStation<f64>)) -> Row {
    CanonicalNewtonRow { uedg: s.u, theta: s.theta, dstr: s.delta_star, mass: s.mass_defect, ..r }
}

fn noted(z: &State, word: &'static str) -> State {
    let mut r = z.clone();
    r.log.push(word);
    r
}

fn operations(n: usize) -> impl StateOperations<f64, State = State> {
    StateFunctions {
        initial: State {
            upper: (0..n).map(|i| row(i, n)).collect(),
            lower: (0..n).map(|i| row(i, n)).collect(),
            log: vec![],
        },
        march_surface: |z: &State, upper: bool, _: f64, _: f64, _: MarchConfig<f64>| {
            let events = SurfaceEvents {
                x_transition: None,
                x_separation: if upper { None } else { Some(0.7) },
                transition_index: None,
            };
            (noted(z, if upper { "march upper" } else { "march lower" }), events)
        },
        record_transition: |z: &State, _: bool, _: Option<usize>, _: Option<f64>| {
            noted(z, "record")
        },
        shape: |z: &State| StateShape {
            upper_panels: z.upper.iter().map(|r| r.panel_idx).collect(),
            lower_panels: z.lower.iter().map(|r| r.panel_idx).collect(),
            lower_x: z.lower.iter().map(|r| r.x).collect(),
            iblte_upper: z.upper.len() - 1,
            iblte_lower: z.lower.len() - 1,
        },
        take_gaps: |z: &State, _: &Vec<f64>| noted(z, "gaps"),
        refresh: |z: &State| noted(z, "refresh"),
        sensitivities: |z: &State| (vec![0.0; z.upper.len()], vec![0.0; z.lower.len()]),
        stagnation: |_: &State| None::<(f64, f64)>,
        stagnation_between: |_: [f64; 2], _: [f64; 2]| None::<(f64, f64)>,
        mixed_march: |z: &State, _: bool, _: f64, _: f64, _: MarchConfig<f64>| noted(z, "mix"),
        newton_form: |z: &State| {
            let n = z.upper.len();
            let ones = vec![1.0; n];
            let zeros = vec![0.0; n];
            NewtonForm {
                view: CanonicalNewtonStateView {
                    upper_rows: z.upper.clone(),
                    lower_rows: z.lower.clone(),
                    upper_flow_types: vec![FlowType::Laminar; n - 1],
                    lower_flow_types: vec![FlowType::Laminar; n - 1],
                    upper_ue_current: ones.clone(),
                    lower_ue_current: ones.clone(),
                    upper_ue_inviscid: ones.clone(),
                    lower_ue_inviscid: ones.clone(),
                    upper_ue_from_mass: ones.clone(),
                    lower_ue_from_mass: ones,
                    upper_ue_operating: zeros.clone(),
                    lower_ue_operating: zeros,
                    sst_go: 0.0,
                    sst_gp: 0.0,
                    ante: 0.0,
                },
                upper: z.upper.iter().map(|r| as_station((*r, FlowType::Laminar))).collect(),
                lower: z.lower.iter().map(|r| as_station((*r, FlowType::Laminar))).collect(),
            }
        },
        absorb: |z: &State,
                 view: &CanonicalNewtonStateView<f64>,
                 _: &GlobalUpdateResult<f64>,
                 _: f64| {
            let mut r = noted(z, "absorb");
            r.upper = view.upper_rows.clone();
            r.lower = view.lower_rows.clone();
            r
        },
        split: |_: &State| 0usize,
        relocate: |z: &State, _: usize| (noted(z, "relocate"), None::<usize>),
        adjust: |z: &State, _: usize, _: usize| noted(z, "adjust"),
        finish: |z: &State| {
            let summary = StateSummary {
                forces: Forces { cl: 0.5, cd: 0.01, cm: 0.0, cd_friction: 0.008, cd_pressure: 0.002 },
                xtran_upper: Some(0.3),
                xtran_lower: None,
            };
            (noted(z, "finish"), summary)
        },
    }
}

fn airfoil(n: usize, max_iterations: usize, reynolds: f64) -> Airfoil<f64> {
    let mut settings = config(reynolds);
    settings.max_iterations = max_iterations;
    Airfoil {
        config: settings,
        alpha: 0.0,
        panel_x: vec![0.0; n],
        panel_y: vec![0.0; n],
        dij: Matrix { nrows: 0, ncols: 0, rows: vec![] },
    }
}

#[test]
fn without_iterations_the_marches_are_the_solution() {
    let closure = closure();
    let ops = operations(4);
    let forms = RowForms { as_station, overwrite };
    let cl = |_: &Vec<f64>, _: f64| 0.0;
    let outside = Outside { closure: &closure, ops: &ops, forms: &forms, cl: &cl };
    let stations = vec![blank_station(); 4];
    let ue = vec![1.0; 4];
    let (r, z) = solve_viscous_two_surfaces(
        &airfoil(4, 0, 1e6),
        &stations,
        &stations,
        &ue,
        &ue,
        &outside,
    )
    .unwrap();
    assert_eq!(z.log, vec!["march upper", "march lower", "record", "record", "finish"]);
    assert!(r.converged);
    assert_eq!(r.iterations, 0);
    assert_eq!((r.cl, r.cd, r.cd_friction), (0.5, 0.01, 0.008));
    assert_eq!((r.x_tr_upper, r.x_tr_lower), (0.3, 1.0));
    assert_eq!(r.x_separation, Some(0.7));
}

#[test]
fn newton_iterations_stop_at_their_limit_or_below_the_tolerance() {
    let closure = closure();
    let ops = operations(4);
    let forms = RowForms { as_station, overwrite };
    let cl = |_: &Vec<f64>, _: f64| 0.0;
    let outside = Outside { closure: &closure, ops: &ops, forms: &forms, cl: &cl };
    let mut stations = vec![blank_station(); 4];
    for i in 0..4 {
        stations[i].x = i as f64 / 3.0;
    }
    let ue = vec![1.0; 4];
    let problem = airfoil(4, 2, 1e6);
    let (r, z) =
        solve_viscous_two_surfaces(&problem, &stations, &stations, &ue, &ue, &outside).unwrap();
    assert!(r.iterations <= 2);
    if r.converged {
        assert!(r.residual < problem.config.tolerance);
    }
    assert_eq!(z.log[0], "march upper");
    assert_eq!(*z.log.last().unwrap(), "finish");
    assert!(z.log.contains(&"mix"));
}

#[test]
fn two_surfaces_need_a_reynolds_number() {
    let closure = closure();
    let ops = operations(3);
    let forms = RowForms { as_station, overwrite };
    let cl = |_: &Vec<f64>, _: f64| 0.0;
    let outside = Outside { closure: &closure, ops: &ops, forms: &forms, cl: &cl };
    let stations = vec![blank_station(); 3];
    let ue = vec![1.0; 3];
    let r = solve_viscous_two_surfaces(
        &airfoil(3, 5, 0.0),
        &stations,
        &stations,
        &ue,
        &ue,
        &outside,
    );
    assert!(matches!(r, Err(SolverError::InvalidReynolds)));
}

#[test]
fn trial_lift_answers_to_angle_and_operating_variable() {
    let mut upper = vec![blank_station(), blank_station()];
    let mut lower = vec![blank_station(), blank_station()];
    upper[1].panel_idx = 0;
    lower[1].panel_idx = 1;
    let cl = |gamma: &Vec<f64>, alpha: f64| gamma.iter().sum::<f64>() + 2.0 * alpha;
    let (new, alpha, ac) = compute_trial_cl_terms(
        3,
        &upper,
        &lower,
        &[0.0, 1.5],
        &[0.0, 0.5],
        &[0.0, 0.25],
        &[0.0, 0.125],
        0.5,
        &cl,
    );
    assert_eq!(new, 1.5 - 0.5 + 1.0);
    assert!((alpha - 2.0).abs() < 1e-8);
    assert!((ac - 0.125).abs() < 1e-8);
    let (_, _, none) = compute_trial_cl_terms(
        3,
        &upper,
        &lower,
        &[0.0, 1.5],
        &[0.0, 0.5],
        &[0.0, 0.0],
        &[0.0, 0.0],
        0.5,
        &cl,
    );
    assert_eq!(none, 0.0);
}

#[test]
fn a_step_on_rows_keeps_the_rest_of_the_view() {
    let rows: Vec<Row> = (0..3).map(|i| row(i, 3)).collect();
    let given = vec![1.0, 1.125, 1.25];
    let mut view = CanonicalNewtonStateView {
        upper_rows: rows.clone(),
        lower_rows: rows.clone(),
        upper_flow_types: vec![FlowType::Laminar; 2],
        lower_flow_types: vec![FlowType::Laminar; 2],
        upper_ue_current: vec![9.0; 7],
        lower_ue_current: vec![],
        upper_ue_inviscid: given.clone(),
        lower_ue_inviscid: given.clone(),
        upper_ue_from_mass: given.clone(),
        lower_ue_from_mass: given.clone(),
        upper_ue_operating: vec![0.5; 3],
        lower_ue_operating: vec![0.25; 3],
        sst_go: 0.0,
        sst_gp: 0.0,
        ante: 0.0,
    };
    let system = GlobalNewtonSystem::new(3, 3, 2, 2);
    let deltas: Vec<[f64; 3]> = (0..5).map(|i| [0.0, 0.0001 * i as f64, 0.0]).collect();
    let dij = Matrix { nrows: 3, ncols: 3, rows: vec![vec![0.25; 3]; 3] };
    let forms = RowForms { as_station, overwrite };
    let r = apply_global_updates_from_view(
        &mut view, &deltas, None, &system, 0.5, &dij, 0.0, 0.0, 1e6, &forms, &closure(),
    );
    assert!(0.0 <= r.relaxation_used && r.relaxation_used <= 0.5);
    assert!(r.rms_change <= r.max_change);
    let shown: Vec<f64> = view.upper_rows.iter().map(|r| r.uedg).collect();
    assert_eq!(view.upper_ue_current, shown);
    let shown: Vec<f64> = view.lower_rows.iter().map(|r| r.uedg).collect();
    assert_eq!(view.lower_ue_current, shown);
    assert_eq!((view.upper_rows[0].theta, view.upper_rows[0].uedg), (rows[0].theta, 1.0));
    assert!(view.upper_rows[1].theta > rows[1].theta);
    assert_eq!((view.upper_ue_inviscid, view.lower_ue_operating), (given, vec![0.25; 3]));
}
