use rustfoil::airfoil::analysis::{
    analyze_faithful, analyze_faithful_batch, analyze_inviscid, analyze_inviscid_batch,
    deflect_flap, get_bl_distribution,
};
use rustfoil::airfoil::batch::{FaithfulResult, InviscidPoint, OperPoint};
use rustfoil::airfoil::design::{gdes_rotate, gdes_scale, gdes_translate};
use rustfoil::airfoil::faithful::{Operated, OperatingPoint, ReType};
use rustfoil::airfoil::inviscid::InviscidSolution;
use rustfoil::airfoil::layer::BlRow;
use rustfoil::airfoil::morph::lerp;
use rustfoil::airfoil::points::{point, Point};
use rustfoil::elementary::{Elementary, ElementaryFunctions};

const TRIANGLE: [f64; 6] = [1.0, 0.0, 0.0, 0.0, 1.0, -0.5];

const SQUARE: [f64; 8] = [1.0, 0.5, 0.0, 0.25, 0.0, -0.25, 1.0, -0.5];

struct Shape {
    corners: usize,
}

fn shape(points: &Vec<Point<f64>>, _: ()) -> Result<Shape, String> {
    if points.len() == 3 {
        Ok(Shape { corners: 3 })
    } else {
        Err("not a triangle".to_string())
    }
}

fn at(alpha_deg: f64) -> OperatingPoint<f64> {
    OperatingPoint {
        alpha_deg,
        reynolds: 1e6,
        mach: 0.0,
        ncrit: 9.0,
        max_iterations: 100,
        re_type: ReType::Type1,
        xstrip_upper: 1.0,
        xstrip_lower: 1.0,
    }
}

fn solved(body: &Shape, p: OperatingPoint<f64>) -> Result<OperPoint<f64>, String> {
    if p.alpha_deg > 10.0 {
        return Err("stalled".to_string());
    }
    Ok(OperPoint {
        alpha_deg: p.alpha_deg,
        cl: body.corners as f64,
        cd: 0.01,
        cm: -0.1,
        converged: true,
        iterations: 7,
        residual: 1e-5,
        x_tr_upper: 0.4,
        x_tr_lower: 0.9,
        cd_friction: 0.006,
        cd_pressure: 0.004,
        reynolds_eff: p.reynolds,
    })
}

fn inviscid(_: &Shape, alpha_deg: f64) -> Result<InviscidSolution<f64>, String> {
    if alpha_deg > 10.0 {
        return Err("singular".to_string());
    }
    Ok(InviscidSolution {
        cl: alpha_deg,
        cm: 0.5,
        cp: vec![1.0],
        cp_x: vec![0.25],
        gamma: vec![2.0],
        psi_0: 0.125,
    })
}

fn row(x: f64, uedg: f64) -> BlRow<f64> {
    BlRow {
        panel_idx: 0,
        x_coord: x,
        y_coord: 0.0,
        theta: 0.001 * x,
        dstr: 0.002,
        mass: 0.0,
        h: 2.0,
        hk: 2.0,
        cf: 0.003,
        uedg,
        ampl: 0.0,
        is_laminar: true,
        is_wake: false,
    }
}

fn layered(_: &Shape, p: OperatingPoint<f64>) -> Result<Operated<f64>, String> {
    if p.alpha_deg > 10.0 {
        return Err("stalled".to_string());
    }
    Ok(Operated {
        cl: 0.5,
        cd: 0.01,
        cm: 0.0,
        converged: true,
        iterations: 4,
        residual: 1e-6,
        x_tr_upper: 0.3,
        x_tr_lower: 0.7,
        gamma: vec![],
        panel_x: vec![],
        upper_rows: vec![row(0.0, 1.0), row(1.0, 1.25), row(2.0, 1.5)],
        lower_rows: vec![row(0.0, 0.5), row(1.0, 0.75)],
        iblte_upper: 1,
        iblte_lower: 9,
        wake_x: vec![],
        wake_y: vec![],
    })
}

#[test]
fn a_viscous_analysis_says_what_stops_it() {
    let r = analyze_faithful(&TRIANGLE, at(2.0), &shape, &solved).unwrap();
    assert_eq!((r.cl, r.alpha_deg, r.iterations), (3.0, 2.0, 7));
    let m = analyze_faithful(&TRIANGLE[..5], at(2.0), &shape, &solved).unwrap_err();
    assert_eq!(m, "Invalid coordinates: need at least 3 points (6 values)");
    let m = analyze_faithful(&SQUARE, at(2.0), &shape, &solved).unwrap_err();
    assert_eq!(m, "Geometry error: not a triangle");
    let m = analyze_faithful(&TRIANGLE, at(12.0), &shape, &solved).unwrap_err();
    assert_eq!(m, "stalled");
}

#[test]
fn an_inviscid_analysis_says_what_stops_it() {
    assert_eq!(analyze_inviscid(&TRIANGLE, 4.0, &shape, &inviscid).unwrap().cl, 4.0);
    assert_eq!(analyze_inviscid(&TRIANGLE[..4], 4.0, &shape, &inviscid).unwrap_err(), "Invalid coordinates");
    assert_eq!(analyze_inviscid(&SQUARE, 4.0, &shape, &inviscid).unwrap_err(), "Geometry error: not a triangle");
    assert_eq!(analyze_inviscid(&TRIANGLE, 40.0, &shape, &inviscid).unwrap_err(), "Solver error: singular");
}

#[test]
fn a_batch_without_a_body_fails_at_every_angle() {
    let none = |_: &Shape, _: &[f64]| -> Vec<FaithfulResult<f64>> { vec![] };
    let r = analyze_faithful_batch(&SQUARE, &[0.0, 4.0], 5e5, &shape, &none);
    assert_eq!(r.len(), 2);
    assert_eq!((r[1].alpha_deg, r[1].reynolds_eff, r[1].success), (4.0, 5e5, false));
    assert_eq!(r[1].error.as_deref(), Some("Geometry error: not a triangle"));
    let r = analyze_faithful_batch(&[1.0], &[0.0], 5e5, &shape, &none);
    assert_eq!(r[0].error.as_deref(), Some("Invalid coordinates"));
    assert!(analyze_faithful_batch(&TRIANGLE, &[0.0, 4.0], 5e5, &shape, &none).is_empty());
}

#[test]
fn an_inviscid_batch_without_a_body_has_one_message() {
    let all = |body: &Shape, alphas: &[f64]| -> Vec<InviscidPoint<f64>> {
        alphas
            .iter()
            .map(|a| InviscidPoint {
                cl: a * body.corners as f64,
                cm: 0.0,
                cp: vec![],
                cp_x: vec![],
                success: true,
                error: None,
            })
            .collect()
    };
    let r = analyze_inviscid_batch(&TRIANGLE, &[1.0, 2.0], &shape, &all).unwrap();
    assert_eq!((r[0].cl, r[1].cl), (3.0, 6.0));
    let m = analyze_inviscid_batch(&SQUARE, &[1.0], &shape, &all).unwrap_err();
    assert_eq!(m, "Geometry error: not a triangle");
    let m = analyze_inviscid_batch(&[0.0; 7], &[1.0], &shape, &all).unwrap_err();
    assert_eq!(m, "Invalid coordinates");
}

#[test]
fn the_layer_is_listed_with_its_edge_velocities() {
    let t = get_bl_distribution(&TRIANGLE, at(0.0), &shape, &layered).unwrap();
    assert_eq!(t.distribution.x_upper, vec![0.0, 1.0]);
    assert_eq!(t.distribution.theta_lower, vec![0.0, 0.001]);
    assert_eq!(t.ue_upper, vec![1.0, 1.25]);
    assert_eq!(t.ue_lower, vec![0.5, 0.75]);
    assert_eq!((t.distribution.x_tr_upper, t.distribution.iterations), (0.3, 4));
    assert!(t.distribution.success);
    let m = get_bl_distribution(&TRIANGLE, at(20.0), &shape, &layered).unwrap_err();
    assert_eq!(m, "stalled");
    let m = get_bl_distribution(&SQUARE, at(0.0), &shape, &layered).unwrap_err();
    assert_eq!(m, "Geometry error: not a triangle");
    let m = get_bl_distribution(&TRIANGLE[..3], at(0.0), &shape, &layered).unwrap_err();
    assert_eq!(m, "Invalid coordinates");
}

#[test]
fn a_flap_needs_four_points() {
    let flap = |p: &Vec<Point<f64>>, a: (f64, f64, f64)| -> Vec<Point<f64>> {
        p.iter().map(|q| point(q.x + a.0, q.y * a.1 - a.2)).collect()
    };
    assert!(deflect_flap(&TRIANGLE, 0.75, 5.0, 0.5, &flap).is_empty());
    let r = deflect_flap(&SQUARE, 0.75, 5.0, 0.5, &flap);
    assert_eq!(r, vec![(1.75, -4.75), (0.75, -4.875), (0.75, -5.125), (1.75, -5.25)]);
}

fn elementary() -> impl Elementary<f64> {
    ElementaryFunctions {
        sqrt: f64::sqrt,
        sin: f64::sin,
        cos: f64::cos,
        atan: f64::atan,
        truncated: |x: f64| x as usize,
    }
}

#[test]
fn moves_are_undone_by_their_opposites() {
    let there = gdes_rotate(&SQUARE, 30.0, 0.25, 0.125, &elementary());
    let back = gdes_rotate(&there.coords, -30.0, 0.25, 0.125, &elementary());
    for (a, b) in back.coords.iter().zip(SQUARE.iter()) {
        assert!((a - b).abs() < 1e-14);
    }
    let there = gdes_scale(&SQUARE, 2.0, 4.0, 0.25, 0.125);
    let back = gdes_scale(&there.coords, 0.5, 0.25, 0.25, 0.125);
    assert_eq!(back.coords, SQUARE.to_vec());
    let there = gdes_translate(&SQUARE, 0.5, -0.25);
    let back = gdes_translate(&there.coords, -0.5, 0.25);
    assert_eq!(back.coords, SQUARE.to_vec());
}

#[test]
fn the_way_between_two_numbers_has_its_ends() {
    assert_eq!(lerp(3.0, 7.0, 0.0), 3.0);
    assert_eq!(lerp(3.0, 7.0, 1.0), 7.0);
    assert_eq!(lerp(3.0, 7.0, 0.25), 4.0);
}
