use rustfoil::closure::{
    BlClosure, Interval, IntervalBlock, Relations, StationCheck, StationSystem, TransitionCheck,
};
use rustfoil::global_newton::listing::{find_standing_out, without_padding};
use rustfoil::global_newton::solve::solve_global_system;
use rustfoil::global_newton::system::GlobalNewtonSystem;
use rustfoil::global_newton::update::{apply_global_updates, preview_global_update_ue};
use rustfoil::march::linear::{build_mrchdu_4x4, gauss_4x4};
use rustfoil::station::{BlDerivatives, BlStation, FlowType, Matrix};

type System = GlobalNewtonSystem<f64>;

fn blank_station() -> BlStation<f64> {
    BlStation {
        x: 0.0,
        x_coord: 0.0,
        panel_idx: 0,
        u: 0.0,
        theta: 0.0,
        delta_star: 0.0,
        ctau: 0.0,
        ampl: 0.0,
        h: 0.0,
        hk: 0.0,
        hs: 0.0,
        hc: 0.0,
        r_theta: 0.0,
        cf: 0.0,
        cd: 0.0,
        us: 0.0,
        cq: 0.0,
        de: 0.0,
        dw: 0.0,
        mass_defect: 0.0,
        is_laminar: true,
        is_turbulent: false,
        is_wake: false,
        derivs: BlDerivatives {
            h_theta: 0.0,
            h_delta_star: 0.0,
            hk_h: 0.0,
        },
    }
}

type Transition = TransitionCheck<f64, ()>;

fn blvar((mut s, _, _, re): (BlStation<f64>, FlowType, f64, f64)) -> BlStation<f64> {
    s.h = s.delta_star / s.theta;
    s.hk = s.h;
    s.r_theta = re * s.u * s.theta;
    s.derivs.h_theta = -s.h / s.theta;
    s.derivs.h_delta_star = 1.0 / s.theta;
    s.derivs.hk_h = 1.0;
    s
}

fn refreshed(mut s: BlStation<f64>) -> BlStation<f64> {
    s.mass_defect = s.u * s.delta_star;
    s
}

fn trchek(
    (_, s2, _, _, _, _): (BlStation<f64>, BlStation<f64>, f64, Option<f64>, f64, f64),
) -> Transition {
    TransitionCheck { transition: false, ampl2: s2.ampl, xt: s2.x, wf1: 0.0, wf2: 1.0, detail: () }
}

fn trchek_stations(
    (_, s2, _, _, _): (BlStation<f64>, BlStation<f64>, f64, f64, f64),
) -> StationCheck<f64> {
    StationCheck { transition: false, ampl2: s2.ampl, xt: None }
}

fn equations((interval, _, _, _): (Interval<f64, ()>, f64, f64, f64)) -> IntervalBlock<f64> {
    let s2 = match interval {
        Interval::Similarity { s2, .. } => s2,
        Interval::Transition { s2, .. } => s2,
        Interval::Regular { s2, .. } => s2,
    };
    let row = [s2.ctau, 1.0 / s2.theta, -1.0 / s2.delta_star, 1.0 / s2.u, s2.x];
    IntervalBlock { residuals: [0.0; 3], vs1: [row; 3], vs2: [row; 3], vsx: [0.0; 3] }
}

fn hkin((h, msq): (f64, f64)) -> (f64, f64) {
    let denominator = 1.0 + 0.113 * msq;
    ((h - 0.29 * msq) / denominator, 1.0 / denominator)
}

fn axset(_: (BlStation<f64>, BlStation<f64>, f64)) -> f64 {
    0.0
}

fn transitions((ampl, ncrit): (f64, f64)) -> bool {
    ampl >= ncrit
}

fn station_system(s: StationSystem<f64>) -> ([[f64; 4]; 4], [f64; 4]) {
    build_mrchdu_4x4(&s.vs2, &s.residuals, [0.0, 0.0, 0.0, 1.0], 0.0)
}

fn solve_4x4((mut a, mut b): ([[f64; 4]; 4], [f64; 4])) -> [f64; 4] {
    gauss_4x4(&mut a, &mut b);
    b
}

fn closure() -> impl BlClosure<f64> {
    Relations {
        blank: blank_station(),
        blvar,
        refreshed,
        trchek,
        trchek_stations,
        equations,
        hkin,
        axset,
        transitions,
        station_system,
        solve_4x4,
        sqrt: f64::sqrt,
        exp: f64::exp,
    }
}

fn make_station(
    panel_idx: usize,
    x: f64,
    u: f64,
    theta: f64,
    delta_star: f64,
    ctau: f64,
) -> BlStation<f64> {
    let mut s = blank_station();
    s.panel_idx = panel_idx;
    s.x = x;
    s.u = u;
    s.theta = theta;
    s.delta_star = delta_star;
    s.ctau = ctau;
    s.mass_defect = u * delta_star;
    s.is_laminar = false;
    s.is_turbulent = true;
    s
}

#[test]
fn test_global_system_creation() {
    let system = System::new(80, 80, 75, 75);

    assert_eq!(system.nsys, 158);
    assert_eq!(system.n_upper, 80);
    assert_eq!(system.n_lower, 80);
    assert_eq!(system.iblte_upper, 75);
    assert_eq!(system.iblte_lower, 75);
}

#[test]
fn test_index_mapping() {
    let system = System::new(80, 80, 75, 75);

    assert_eq!(system.to_global(0, 1), 1);
    assert_eq!(system.to_global(0, 50), 50);
    assert_eq!(system.to_global(0, 79), 79);

    assert_eq!(system.to_global(1, 1), 80);
    assert_eq!(system.to_global(1, 50), 129);

    assert_eq!(system.from_global(1), (0, 1));
    assert_eq!(system.from_global(50), (0, 50));
    assert_eq!(system.from_global(80), (1, 1));
    assert_eq!(system.from_global(129), (1, 50));
}

#[test]
fn test_vti_signs() {
    let n = 10;
    let upper_stations: Vec<BlStation<f64>> = (0..n)
        .map(|i| {
            let mut s = blank_station();
            s.x = 0.1 * i as f64;
            s.panel_idx = i;
            s
        })
        .collect();
    let mut lower_stations = upper_stations.clone();
    for (i, s) in lower_stations.iter_mut().enumerate() {
        s.panel_idx = n + i;
    }

    let mut system = System::new(n, n, n - 2, n - 2);
    system.setup_index_mappings(&upper_stations, &lower_stations);

    for ibl in 1..n {
        let iv = system.to_global(0, ibl);
        if iv <= system.nsys {
            assert_eq!(system.vti[iv], 1.0, "Upper surface VTI should be +1 at IV={}", iv);
        }
    }
    for ibl in 1..n {
        let iv = system.to_global(1, ibl);
        if iv <= system.nsys {
            assert_eq!(system.vti[iv], -1.0, "Lower surface VTI should be -1 at IV={}", iv);
        }
    }
}

#[test]
fn test_te_wake_interface_uses_combined_te_state() {
    let mut upper = vec![
        make_station(0, 0.0, 0.01, 0.001, 0.002, 0.02),
        make_station(1, 0.4, 0.8, 0.002, 0.003, 0.03),
        make_station(2, 1.0, 0.9, 0.004, 0.006, 0.05),
    ];
    let mut lower = vec![
        make_station(3, 0.0, 0.01, 0.001, 0.002, 0.02),
        make_station(4, 0.4, 0.7, 0.0025, 0.0035, 0.025),
        make_station(5, 1.0, 0.85, 0.003, 0.005, 0.04),
        make_station(6, 1.1, 0.82, 0.010, 0.012, 0.01),
    ];
    lower[3].is_wake = true;
    upper[0].is_laminar = true;
    lower[0].is_laminar = true;

    let mut system = System::new(upper.len(), lower.len(), 2, 2);
    system.apply_te_wake_interface(&upper, &lower);
    system.build_vz_block(&upper, &lower);

    let wake_iv = system.to_global(1, 3);
    let tte = upper[2].theta + lower[2].theta;
    let dte = upper[2].delta_star + lower[2].delta_star;
    let cte = (upper[2].ctau * upper[2].theta + lower[2].ctau * lower[2].theta) / tte;

    assert!((system.vdel[wake_iv][0] - (cte - lower[3].ctau)).abs() < 1e-12);
    assert!((system.vdel[wake_iv][1] - (tte - lower[3].theta)).abs() < 1e-12);
    assert!((system.vdel[wake_iv][2] - (dte - lower[3].delta_star)).abs() < 1e-12);

    assert!((system.vz[0][0] + upper[2].theta / tte).abs() < 1e-12);
    assert!((system.vz[1][1] + 1.0).abs() < 1e-12);
}

#[test]
fn test_second_rhs_survives_global_solve() {
    let mut system = System::new(2, 2, 1, 1);

    for iv in 1..=system.nsys {
        system.va[iv][0][0] = 1.0;
        system.va[iv][1][1] = 1.0;
        system.vm[iv][iv][2] = 1.0;
    }

    system.vdel[1] = [1.0, 2.0, 3.0];
    system.vdel[2] = [4.0, 5.0, 6.0];
    system.vdel_operating[1] = [0.5, 0.25, 0.125];
    system.vdel_operating[2] = [1.5, 1.25, 1.125];

    let result = solve_global_system(&mut system);

    assert_eq!(result.state_deltas[1], [1.0, 2.0, 3.0]);
    assert_eq!(result.state_deltas[2], [4.0, 5.0, 6.0]);
    assert_eq!(result.operating_deltas[1], [0.5, 0.25, 0.125]);
    assert_eq!(result.operating_deltas[2], [1.5, 1.25, 1.125]);
}

#[test]
fn test_operating_rhs_uses_surface_alpha_sensitivity() {
    let mut upper = vec![
        make_station(0, 0.0, 0.01, 0.001, 0.002, 0.02),
        make_station(1, 0.2, 0.8, 0.002, 0.003, 0.03),
        make_station(2, 0.6, 0.85, 0.0025, 0.0036, 0.035),
    ];
    let mut lower = vec![
        make_station(3, 0.0, 0.01, 0.001, 0.002, 0.02),
        make_station(4, 0.2, 0.75, 0.0021, 0.0032, 0.03),
        make_station(5, 0.6, 0.8, 0.0023, 0.0034, 0.032),
    ];
    upper[0].is_laminar = true;
    lower[0].is_laminar = true;

    let mut system = System::new(upper.len(), lower.len(), 2, 2);
    system.setup_index_mappings(&upper, &lower);

    let flow_types = vec![FlowType::Turbulent; 2];
    let closure = closure();

    system.build_surface_equations(&upper, &flow_types, 9.0, 0.0, 1e6, 0, &closure);
    system.build_surface_equations(&lower, &flow_types, 9.0, 0.0, 1e6, 1, &closure);
    system.set_stagnation_derivs(0.0, 0.0);
    system.build_operating_rhs(&upper, &lower, &[0.0, 0.1, 0.2], &[0.0, -0.1, -0.2]);

    let upper_iv = system.to_global(0, 1);
    let lower_iv = system.to_global(1, 1);
    assert!(system.vdel_operating[upper_iv].iter().any(|v| v.abs() > 0.0));
    assert!(system.vdel_operating[lower_iv].iter().any(|v| v.abs() > 0.0));
}

#[test]
fn test_apply_global_updates_uses_operating_correction() {
    let mut upper = vec![blank_station(), blank_station()];
    let mut lower = vec![blank_station(), blank_station()];

    upper[1].u = 1.0;
    upper[1].theta = 1.0;
    upper[1].delta_star = 1.0;
    upper[1].ampl = 0.2;
    upper[1].mass_defect = 1.0;
    upper[1].is_laminar = true;
    upper[1].is_turbulent = false;
    upper[1].panel_idx = 1;

    lower[1].u = 1.0;
    lower[1].theta = 1.0;
    lower[1].delta_star = 1.0;
    lower[1].ampl = 0.1;
    lower[1].mass_defect = 1.0;
    lower[1].is_laminar = true;
    lower[1].is_turbulent = false;
    lower[1].panel_idx = 2;

    let system = System::new(upper.len(), lower.len(), 1, 1);
    let mut base = vec![[0.0; 3]; system.nsys + 1];
    let mut operating = vec![[0.0; 3]; system.nsys + 1];
    let upper_iv = system.to_global(0, 1);

    base[upper_iv] = [1.0, 1.0, 1.0];
    operating[upper_iv] = [0.25, 0.25, 0.25];

    let result = apply_global_updates(
        &mut upper,
        &mut lower,
        &base,
        Some(&operating),
        &system,
        1.0,
        None,
        None,
        None,
        None,
        None,
        2.0,
        0.0,
        &closure(),
    );

    assert!((result.relaxation_used - 1.0).abs() < 1.0e-12);
    assert!((upper[1].ampl - 0.7).abs() < 1.0e-12);
    assert!((upper[1].theta - 1.5).abs() < 1.0e-12);
    assert!(upper[1].delta_star > 1.0);
    assert!((upper[1].u - 1.0).abs() < 1.0e-12);
}

fn filled_system() -> System {
    let mut system = System::new(3, 4, 2, 2);
    system.airfoil_arc_length = 2.0;
    for iv in 1..=system.nsys {
        let t = iv as f64;
        system.va[iv] = [[3.0 + t, 0.5, 0.0], [0.25 * t, 4.0, 0.0], [0.5, -0.75, 0.0]];
        system.vb[iv] = [[0.5, 0.125 * t, 0.0], [-0.25, 0.5, 0.0], [0.125, 0.25, 0.0]];
        for l in 1..=system.nsys {
            let d = if l == iv { 5.0 } else { 0.0 };
            let s = l as f64;
            system.vm[iv][l] = [0.25 + 0.0625 * s, -0.5 + 0.03125 * t, 0.75 + d + 0.125 * s];
        }
        system.vdel[iv] = [1.0 + t, -0.5 * t, 2.0 - t];
        system.vdel_operating[iv] = [0.5, t, 0.25 * t];
    }
    system.vz = [[0.5, -0.25], [0.125, 0.75], [-0.5, 0.25]];
    system
}

fn left_side(system: &System, x: &[[f64; 3]], i: usize, k: usize) -> f64 {
    let mut sum = system.va[i][k][0] * x[i][0] + system.va[i][k][1] * x[i][1];
    if i > 1 {
        sum += system.vb[i][k][0] * x[i - 1][0] + system.vb[i][k][1] * x[i - 1][1];
    }
    if i == 5 {
        sum += system.vz[k][0] * x[2][0] + system.vz[k][1] * x[2][1];
    }
    for l in 1..=system.nsys {
        sum += system.vm[i][l][k] * x[l][2];
    }
    sum
}

#[test]
fn both_solutions_satisfy_every_equation() {
    let mut system = filled_system();
    let r = solve_global_system(&mut system);
    for i in 1..=system.nsys {
        for k in 0..3 {
            let state = left_side(&system, &r.state_deltas, i, k);
            assert!((state - system.vdel[i][k]).abs() < 1e-10);
            let operating = left_side(&system, &r.operating_deltas, i, k);
            assert!((operating - system.vdel_operating[i][k]).abs() < 1e-10);
        }
    }
}

#[test]
fn small_entries_far_below_are_passed_over() {
    let mut system = System::new(3, 3, 2, 2);
    for iv in 1..=system.nsys {
        system.va[iv] = [[1.0, 0.0, 0.0], [0.0, 1.0, 0.0], [0.0, 0.0, 0.0]];
        system.vm[iv][iv] = [0.0, 0.0, 1.0];
        system.vdel[iv] = [0.0, 0.0, 1.0];
    }
    system.vm[3][1] = [0.005, 0.005, 0.005];
    system.vm[4][1] = [0.5, 0.5, 0.5];
    let r = solve_global_system(&mut system);
    assert_eq!(r.state_deltas[3], [0.0, 0.0, 1.0]);
    assert_eq!(r.state_deltas[4], [-0.5, -0.5, 0.5]);
}

#[test]
fn a_system_of_one_row_is_not_solved() {
    let mut system = System::new(2, 1, 1, 0);
    system.vdel[1] = [1.0, 1.0, 1.0];
    let r = solve_global_system(&mut system);
    assert_eq!(r.state_deltas, vec![[0.0; 3]; 2]);
    assert_eq!(r.operating_deltas, vec![[0.0; 3]; 2]);
}

#[test]
fn residuals_are_measured_by_size_and_mean_square() {
    let mut system = System::new(2, 2, 1, 1);
    system.vdel[0] = [9.0, 9.0, 9.0];
    system.vdel[1] = [1.0, -2.0, 3.0];
    system.vdel[2] = [0.0, -4.0, 0.0];
    assert_eq!(system.max_residual(), 4.0);
    assert_eq!(system.rms_residual(&closure()), (30.0_f64 / 6.0).sqrt());
    assert!(system.is_converged(4.5));
    assert!(!system.is_converged(4.0));
}

#[test]
fn a_step_is_scaled_to_its_limits() {
    let mut upper = vec![blank_station(), make_station(1, 0.2, 1.0, 1.0, 1.0, 0.25)];
    let mut lower = vec![blank_station(), make_station(2, 0.2, 1.0, 1.0, 1.0, 0.25)];
    let system = System::new(2, 2, 1, 1);
    let deltas = vec![[0.0; 3], [0.0, 3.0, 0.0], [0.0, -0.5, 0.0]];
    let r = apply_global_updates(
        &mut upper,
        &mut lower,
        &deltas,
        None,
        &system,
        1.0,
        None,
        None,
        None,
        None,
        None,
        0.0,
        0.0,
        &closure(),
    );
    assert_eq!(r.relaxation_used, 0.5);
    assert_eq!(upper[1].theta, 2.5);
    assert_eq!(lower[1].theta, 0.75);
    assert_eq!(r.max_change, 3.0);
}

#[test]
fn mass_defects_of_both_surfaces_induce_velocity() {
    let dij = Matrix {
        nrows: 3,
        ncols: 3,
        rows: vec![vec![1.0, 2.0, 4.0], vec![8.0, 16.0, 32.0], vec![64.0, 128.0, 256.0]],
    };
    let upper = vec![blank_station(), make_station(1, 0.2, 0.5, 0.1, 0.5, 0.02)];
    let lower = vec![blank_station(), make_station(2, 0.2, 1.0, 0.1, 0.5, 0.02)];
    let system = System::new(2, 2, 1, 1);
    let u = system.compute_ue_from_mass_both(&upper, &lower, &[0.0, 1.0], &dij, 0);
    assert_eq!(u[1], 1.0 - 16.0 * 0.25 + 32.0 * 0.5);
    let l = system.compute_ue_from_mass_both(&upper, &lower, &[0.0, 1.0], &dij, 1);
    assert_eq!(l[1], 1.0 + 128.0 * 0.25 - 256.0 * 0.5);
}

fn surface(first_panel: usize) -> Vec<BlStation<f64>> {
    (0..3)
        .map(|i| {
            let mut s = blank_station();
            s.x = 0.1 * (i + 1) as f64;
            s.u = 1.0 + 0.25 * i as f64;
            s.theta = 0.01;
            s.delta_star = 0.02;
            s.mass_defect = s.u * s.delta_star;
            s.panel_idx = first_panel + i;
            s.is_laminar = true;
            s
        })
        .collect()
}

fn influence() -> Matrix<f64> {
    let rows = (0..6)
        .map(|i| (0..6).map(|j| 0.5 * i as f64 - 0.25 * j as f64 + 1.0).collect())
        .collect();
    Matrix { nrows: 6, ncols: 6, rows }
}

fn build(system: &mut System, current: (&[f64], &[f64])) {
    let flows = [FlowType::Laminar; 3];
    let given = [1.0, 1.1, 1.2];
    system.build_global_system(
        &surface(0),
        &surface(3),
        current.0,
        current.1,
        &flows,
        &flows,
        &influence(),
        &given,
        &given,
        &[],
        &[],
        &given,
        &given,
        9.0,
        0.0,
        1e6,
        4,
        &closure(),
    );
}

fn assert_alike(a: &System, b: &System) {
    assert_eq!((&a.va, &a.vb, &a.vz, &a.vm), (&b.va, &b.vb, &b.vz, &b.vm));
    assert_eq!((&a.vdel, &a.vdel_operating), (&b.vdel, &b.vdel_operating));
    assert_eq!((&a.vti, &a.panel_idx, &a.is_wake), (&b.vti, &b.panel_idx, &b.is_wake));
    assert_eq!((&a.vs1_delta, &a.vs1_ue, &a.vs1_x), (&b.vs1_delta, &b.vs1_ue, &b.vs1_x));
    assert_eq!((&a.vs2_delta, &a.vs2_ue, &a.vs2_x), (&b.vs2_delta, &b.vs2_ue, &b.vs2_x));
    assert_eq!((a.dule1, a.dule2, a.sst_go, a.sst_gp), (b.dule1, b.dule2, b.sst_go, b.sst_gp));
    assert_eq!((a.airfoil_arc_length, a.current_iteration), (b.airfoil_arc_length, b.current_iteration));
}

#[test]
fn building_twice_changes_nothing() {
    let mut once = System::new(3, 3, 1, 1);
    once.set_stagnation_derivs(0.5, -0.25);
    build(&mut once, (&[1.0, 1.5, 2.0], &[1.0, 1.5, 1.75]));
    let mut twice = System::new(3, 3, 1, 1);
    twice.set_stagnation_derivs(0.5, -0.25);
    for _ in 0..2 {
        build(&mut twice, (&[1.0, 1.5, 2.0], &[1.0, 1.5, 1.75]));
    }
    assert_alike(&once, &twice);
    assert!(once.vm.iter().flatten().flatten().any(|v| *v != 0.0));
    assert_eq!((twice.sst_go, twice.sst_gp), (0.5, -0.25));
}

#[test]
fn stations_give_their_velocities() {
    let mut given = System::new(3, 3, 1, 1);
    build(&mut given, (&[1.0, 1.25, 1.5], &[1.0, 1.25, 1.5]));
    let mut empty = System::new(3, 3, 1, 1);
    build(&mut empty, (&[], &[]));
    assert_alike(&given, &empty);
}

#[test]
fn a_trailing_edge_may_lie_past_the_stations() {
    let system = System::new(2, 2, 7, 9);
    assert_eq!((system.nsys, system.iblte_upper, system.iblte_lower), (2, 7, 9));
    assert_eq!(system.max_residual(), 0.0);
    let mut built = System::new(3, 3, 7, 9);
    build(&mut built, (&[1.0, 1.5, 2.0], &[1.0, 1.5, 1.75]));
    assert!(built.airfoil_arc_length.is_finite());
    assert_eq!(built.vz, [[0.0; 2]; 3]);
    let mut system = filled_system();
    system.iblte_lower = 9;
    let r = solve_global_system(&mut system);
    system.vz = [[0.0; 2]; 3];
    for i in 1..=system.nsys {
        for k in 0..3 {
            let state = left_side(&system, &r.state_deltas, i, k);
            assert!((state - system.vdel[i][k]).abs() < 1e-10);
        }
    }
    let mut crossed = filled_system();
    crossed.iblte_upper = 5;
    let r = solve_global_system(&mut crossed);
    assert!(r.state_deltas.iter().flatten().all(|d| d.is_finite()));
}

#[test]
fn stepped_variables_belong_together() {
    let (mut upper, mut lower) = (surface(0), surface(3));
    for s in &mut lower {
        s.is_laminar = false;
        s.is_turbulent = true;
        s.ctau = 0.24;
    }
    lower[2].is_wake = true;
    lower[2].dw = 0.005;
    let first = upper[0];
    let system = System::new(3, 3, 1, 1);
    let deltas: Vec<[f64; 3]> = (0..4).map(|i| [0.02, 0.0005 * i as f64, 0.001]).collect();
    let r = apply_global_updates(
        &mut upper, &mut lower, &deltas, None, &system, 1.0, None, None, None, None, None, 0.0,
        0.0, &closure(),
    );
    assert!(0.0 < r.relaxation_used && r.relaxation_used <= 1.0);
    assert_eq!((upper[0].theta, upper[0].mass_defect), (first.theta, first.mass_defect));
    assert_eq!(lower[2].theta, 0.01);
    for s in [upper[1], upper[2], lower[1]] {
        let gap = if s.is_wake { s.dw } else { 0.0 };
        assert_eq!(s.mass_defect, s.u * (s.delta_star + gap));
        assert_eq!(s.h, s.delta_star / s.theta);
        assert!(s.is_laminar || s.ctau <= 0.25);
    }
    assert!(lower[1].theta > 0.01);
}

#[test]
fn a_preview_moves_with_the_operating_variable() {
    let system = System::new(3, 3, 1, 1);
    let (upper, lower, dij) = (surface(0), surface(3), influence());
    let deltas: Vec<[f64; 3]> = (0..5).map(|i| [0.0, 0.0, 0.125 * i as f64]).collect();
    let operating: Vec<[f64; 3]> = (0..5).map(|i| [0.0, 0.0, 0.5 - 0.25 * i as f64]).collect();
    let (inv, sens) = ([1.0, 1.5, 2.0], [0.25, 0.5, -0.75]);
    let dac = 0.5;
    let show = |deltas: &[[f64; 3]], inv: &[f64], dij: Option<&Matrix<f64>>| {
        preview_global_update_ue(
            &upper,
            &lower,
            deltas,
            Some(&operating),
            &system,
            dij,
            Some(inv),
            Some(inv),
            Some(&sens),
            Some(&sens),
        )
    };
    let p = show(&deltas, &inv, Some(&dij));
    let corrected: Vec<[f64; 3]> = deltas
        .iter()
        .zip(&operating)
        .map(|(d, o)| [d[0] - dac * o[0], d[1] - dac * o[1], d[2] - dac * o[2]])
        .collect();
    let moved: Vec<f64> = inv.iter().zip(&sens).map(|(u, s)| u + dac * s).collect();
    let q = show(&corrected, &moved, Some(&dij));
    for i in 0..3 {
        assert!((q.upper_u_new[i] - (p.upper_u_new[i] + dac * p.upper_u_ac[i])).abs() < 1e-12);
        assert!((q.lower_u_new[i] - (p.lower_u_new[i] + dac * p.lower_u_ac[i])).abs() < 1e-12);
    }
    assert_eq!((p.upper_u_new[0], p.upper_u_ac[0]), (upper[0].u, 0.0));
    assert!(p.upper_u_ac[1] != 0.0);
    let still = show(&deltas, &inv, None);
    assert_eq!(still.lower_u_new, vec![1.0, 1.25, 1.5]);
    assert_eq!(still.lower_u_ac, vec![0.0; 3]);
}

#[test]
fn the_mean_change_is_within_the_largest() {
    let (mut upper, mut lower) = (surface(0), surface(3));
    let system = System::new(3, 3, 1, 1);
    let deltas: Vec<[f64; 3]> = (0..5).map(|i| [0.5, 0.001 * i as f64, -0.002]).collect();
    let r = apply_global_updates(
        &mut upper, &mut lower, &deltas, None, &system, 1.0, None, None, None, None, None, 0.0,
        0.0, &closure(),
    );
    assert!(0.0 < r.rms_change && r.rms_change <= r.max_change);
}

#[test]
fn a_listing_leaves_the_padding_out() {
    let system = filled_system();
    let l = system.setbl_listing(true);
    assert_eq!((l.nsys, l.va_blocks.len(), l.vb_blocks.len()), (5, 5, 5));
    assert_eq!(l.va_blocks[0], [[4.0, 0.5], [0.25, 4.0], [0.5, -0.75]]);
    assert_eq!(l.vb_blocks[1], [[0.5, 0.25], [-0.25, 0.5], [0.125, 0.25]]);
    assert_eq!(l.vdel_rhs, system.vdel[1..].to_vec());
    assert_eq!(l.vm_diag[4], system.vm[5][5]);
    assert_eq!(l.vm_row1, system.vm[1][1..].to_vec());
    assert!(l.vm_row24.is_none() && l.vm_row25.is_none() && l.vm_row26.is_none());
    assert_eq!(l.vm_full.unwrap()[2], system.vm[3][1..].to_vec());
    let wide = System::new(20, 8, 19, 7);
    let l = wide.setbl_listing(false);
    assert_eq!((l.vm_row26.unwrap().len(), l.vm_full.is_none()), (26, true));
    assert_eq!(without_padding(&[[9.0; 3], [1.0; 3]]), vec![[1.0; 3]]);
    assert!(without_padding::<[f64; 3]>(&[]).is_empty());
    let columns = [[0.0, 1e-7, 0.0], [0.0, 0.0, -1e-5], [1e-6, 0.0, 0.0], [2.0, 0.0, 0.0]];
    assert_eq!(find_standing_out(&columns), vec![(2, columns[1]), (4, columns[3])]);
}
