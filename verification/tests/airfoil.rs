use rustfoil::airfoil::batch::{failed_results, solve_one_faithful, solve_one_inviscid, OperPoint};
use rustfoil::airfoil::dat::parse_dat;
use rustfoil::airfoil::design::{
    find_leading_edge, gdes_flap, gdes_rotate, gdes_scale, gdes_scale_camber,
    gdes_scale_thickness, gdes_set_le_radius, gdes_set_te_gap, gdes_translate, scale_camber_impl,
    scale_thickness_impl, set_le_radius_impl, set_te_gap_impl,
};
use rustfoil::airfoil::faithful::{
    analyze_airfoil_faithful, arc_lengths, compute_dividing_streamline_faithful,
    compute_psi_grid_faithful, compute_streamlines_faithful, find_nodes,
    get_bl_distribution_faithful, get_bl_visualization_faithful, re_type_from_int,
    FaithfulFunctions, FaithfulSolver, NodeTable, Operated, OperatingPoint, ReType,
};
use rustfoil::airfoil::flap::{flap_impl, flap_surface};
use rustfoil::airfoil::interp::{interp_surface, interp_y, interp_y_at_x, seg_intersect};
use rustfoil::airfoil::inverse::{
    full_inverse_design_mdes_impl, inverse_design_qdes_impl, target_kind_from_name,
    InverseDesignIterationSnapshot, MdesDesignResult, MdesRequest, QdesRequest, QdesSolution,
    QdesTarget, QdesTargetKind,
};
use rustfoil::airfoil::inviscid::{
    analyze_airfoil_impl, compute_dividing_streamline_impl, compute_psi_grid_impl,
    compute_streamlines_impl, GridOptions, InviscidSolution, RustFoil,
    StreamlineOptions,
};
use rustfoil::airfoil::layer::{
    build_effective_body_polygon_from_snapshot, build_surface_sigma_from_snapshot,
    build_wake_source_panels_from_snapshot, AnalysisResult, BlRow, FaithfulFlowField,
    FaithfulSnapshot,
};
use rustfoil::airfoil::morph::{
    decode_streamlines, encode_streamlines, lerp_array, lerp_morph_state, lerp_points,
    lerp_streamlines,
};
use rustfoil::airfoil::naca::{generate_naca4, generate_naca4_from_string, generate_naca4_impl};
use rustfoil::airfoil::points::{
    flat_from_points, parse_coords, point, points_from_flat, points_to_flat, Point,
};
use rustfoil::airfoil::smoke::WasmSmokeSystem;
use rustfoil::airfoil::spacing::{
    compute_curvature_spacing, curvature_to_spacing, interpolate_spacing, repanel_with_spacing,
    repanel_with_spacing_and_curvature, repanel_xfoil, repanel_xfoil_with_params,
    spacing_to_distribution,
};
use rustfoil::airfoil::spline::{SplineFunctions, Splines};
use rustfoil::elementary::{Elementary, ElementaryFunctions};
use rustfoil::number::{pi, radians};

fn elementary() -> impl Elementary<f64> {
    ElementaryFunctions {
        sqrt: f64::sqrt,
        sin: f64::sin,
        cos: f64::cos,
        atan: f64::atan,
        truncated: |x: f64| x as usize,
    }
}

fn diamond_pts() -> Vec<Point<f64>> {
    vec![
        point(1.0, 0.0),
        point(0.75, 0.04),
        point(0.5, 0.06),
        point(0.25, 0.04),
        point(0.0, 0.0),
        point(0.25, -0.04),
        point(0.5, -0.06),
        point(0.75, -0.04),
        point(1.0, 0.0),
    ]
}

fn diamond_coords() -> Vec<f64> {
    vec![
        1.0, 0.0, 0.75, -0.05, 0.5, -0.08, 0.25, -0.05, 0.0, 0.0, 0.25, 0.05, 0.5, 0.08, 0.75,
        0.05, 1.0, 0.0,
    ]
}

/// A flow that knows its points: one panel between each two of them.
fn make(points: &Vec<Point<f64>>, _: ()) -> Result<Vec<Point<f64>>, String> {
    if points[0].x < 0.0 {
        return Err("inside out".to_string());
    }
    Ok(points.clone())
}

fn flow(points: &Vec<Point<f64>>, alpha_deg: f64) -> Result<InviscidSolution<f64>, String> {
    if alpha_deg > 45.0 {
        return Err("singular".to_string());
    }
    let n = points.len() - 1;
    Ok(InviscidSolution {
        cl: 0.1 * alpha_deg,
        cm: -0.01,
        cp: vec![0.25; n],
        cp_x: (0..n).map(|i| 0.5 * (points[i].x + points[i + 1].x)).collect(),
        gamma: vec![0.5; points.len()],
        psi_0: 0.125,
    })
}

#[test]
fn test_naca_0012() {
    let coords = generate_naca4_impl(0.0, 0.0, 0.12, 50, &elementary());

    assert_eq!(coords.len(), 100);

    assert!((coords[0].x - 1.0).abs() < 0.01);
    assert!((coords[0].x - coords.last().unwrap().x).abs() < 1e-10);
    assert!((coords[0].y - coords.last().unwrap().y).abs() < 1e-10);

    let le_idx = 49;
    assert!((coords[le_idx].x).abs() < 0.01);

    let max_y = coords.iter().map(|p| p.y.abs()).fold(0.0, f64::max);
    assert!(max_y > 0.05 && max_y < 0.07);
}

#[test]
fn test_naca_2412() {
    let coords = generate_naca4_impl(0.02, 0.4, 0.12, 50, &elementary());

    assert_eq!(coords.len(), 100);

    let mid = coords.len() / 2;

    let max_upper = coords[..mid].iter().map(|p| p.y).fold(f64::MIN, f64::max);
    let min_lower = coords[mid..].iter().map(|p| p.y).fold(f64::MAX, f64::min);

    assert!(max_upper > 0.05);
    assert!(min_lower < 0.0);
}

#[test]
fn test_naca_from_string() {
    let coords: Vec<f64> = generate_naca4_from_string("0012", 30, &elementary());
    assert!(!coords.is_empty());
    assert_eq!(coords.len(), 60 * 2);

    let invalid: Vec<f64> = generate_naca4_from_string("abc", 30, &elementary());
    assert!(invalid.is_empty());

    let too_short: Vec<f64> = generate_naca4_from_string("12", 30, &elementary());
    assert!(too_short.is_empty());
}

#[test]
fn test_ssp_distribution() {
    let uniform_spacing = vec![1.0; 100];
    let dist: Vec<f64> = spacing_to_distribution(&uniform_spacing, 11);

    assert_eq!(dist.len(), 11);
    assert!((dist[0] - 0.0).abs() < 1e-10);
    assert!((dist[10] - 1.0).abs() < 1e-10);

    for i in 0..10 {
        let delta = dist[i + 1] - dist[i];
        assert!((delta - 0.1).abs() < 0.02);
    }
}

#[test]
fn test_ssp_clustering() {
    let n_samples = 100;
    let spacing: Vec<f64> = (0..n_samples)
        .map(|i| {
            let s = i as f64 / (n_samples - 1) as f64;
            let dist_from_center = (s - 0.5).abs() * 2.0;
            0.5 + 1.5 * dist_from_center
        })
        .collect();

    let dist = spacing_to_distribution(&spacing, 21);

    let delta_start = dist[1] - dist[0];
    let delta_mid = dist[11] - dist[10];

    assert!(delta_start < delta_mid);
}

#[test]
fn test_analyze_diamond() {
    let result = analyze_airfoil_impl(&diamond_coords(), 0.0, &make, &flow);

    if result.success {
        assert!(result.cp.len() == 8);
        assert!(result.cl.is_finite());
    } else {
        assert!(result.error.is_some());
    }
}

#[test]
fn test_invalid_coords() {
    let coords = vec![1.0, 0.0];
    let result = analyze_airfoil_impl(&coords, 0.0, &make, &flow);
    assert!(!result.success);
    assert!(result.error.is_some());
}

#[test]
fn test_rustfoil_api() {
    let mut foil: RustFoil<f64, Vec<Point<f64>>> = RustFoil::new();

    assert!(foil.set_coordinates(&diamond_coords(), &make));
    assert_eq!(foil.panel_count(&|b: &Vec<Point<f64>>| b.len() - 1), 8);

    foil.set_alpha(5.0);
    assert!((foil.get_alpha() - 5.0).abs() < 1e-10);
}

#[test]
fn gdes_rotate_zero_is_identity() {
    let pts = diamond_pts();
    let coords = points_to_flat(&pts);
    let result = gdes_rotate(&coords, 0.0, 0.5, 0.0, &elementary());
    assert!(result.success);
    for (i, p) in pts.iter().enumerate() {
        let rx = result.coords[2 * i];
        let ry = result.coords[2 * i + 1];
        assert!((rx - p.x).abs() < 1e-12);
        assert!((ry - p.y).abs() < 1e-12);
    }
}

#[test]
fn gdes_flap_deflects_te_downward() {
    let pts = diamond_pts();
    let result = flap_impl(&pts, 0.75, 0.5, 10.0, &elementary());
    assert!(result[0].y < -0.001, "positive flap should move TE down, got y={}", result[0].y);
    let le = result.iter().min_by(|a, b| a.x.partial_cmp(&b.x).unwrap()).unwrap();
    assert!((le.x - 0.0).abs() < 1e-10, "LE should not move, got x={}", le.x);
    assert!((le.y - 0.0).abs() < 1e-10, "LE should not move, got y={}", le.y);
}

#[test]
fn gdes_flap_zero_deflection_is_identity() {
    let pts = diamond_pts();
    let result = flap_impl(&pts, 0.75, 0.5, 0.0, &elementary());
    for (a, b) in result.iter().zip(pts.iter()) {
        assert!((a.x - b.x).abs() < 1e-10);
        assert!((a.y - b.y).abs() < 1e-10);
    }
}

#[test]
fn gdes_te_gap_zero_closes_te() {
    let pts = diamond_pts();
    let result = set_te_gap_impl(&pts, 0.0, 0.8);
    let gap = (result[0].y - result[result.len() - 1].y).abs();
    assert!(gap < 0.01, "TE gap should be near zero, got {gap}");
}

#[test]
fn gdes_scale_thickness_doubles() {
    let pts = diamond_pts();
    let result = scale_thickness_impl(&pts, 2.0);
    let y_max = result.iter().map(|p| p.y).fold(f64::NEG_INFINITY, f64::max);
    assert!(y_max > 0.10, "doubled thickness should exceed 0.10, got {y_max}");
}

#[test]
fn gdes_scale_camber_zero_symmetrizes() {
    let cambered: Vec<Point<f64>> = vec![
        point(1.0, 0.01),
        point(0.5, 0.08),
        point(0.0, 0.02),
        point(0.5, -0.04),
        point(1.0, -0.01),
    ];
    let result = scale_camber_impl(&cambered, 0.0);
    let y_upper = result[1].y;
    let y_lower = result[3].y;
    assert!(
        (y_upper + y_lower).abs() < 0.02,
        "zero camber should be nearly symmetric: y_u={y_upper}, y_l={y_lower}"
    );
}

#[test]
fn gdes_le_radius_factor_1_is_identity() {
    let pts = diamond_pts();
    let result = set_le_radius_impl(&pts, 1.0);
    for (a, b) in result.iter().zip(pts.iter()) {
        assert!((a.x - b.x).abs() < 1e-10);
        assert!((a.y - b.y).abs() < 1e-10);
    }
}

fn solution_of(request: &QdesRequest<f64>) -> QdesSolution<f64> {
    QdesSolution {
        input_coords: request.coords.clone(),
        output_coords: request.coords.clone(),
        paneled_coords: vec![(0.5, 0.25)],
        cl: request.alpha_deg,
        cd: 0.01,
        cm: -0.05,
        converged: true,
        iterations: request.outer_iterations,
        rms_error: request.update_damping,
        max_error: request.max_iterations as f64,
        target_kind: request.target_kind,
        target_upper: request.upper.clone(),
        target_lower: request.lower.clone(),
        achieved_upper: Some(QdesTarget { x: vec![0.1], values: vec![0.2] }),
        achieved_lower: None,
        history: vec![InverseDesignIterationSnapshot {
            iteration: 1,
            rms_error: 0.1,
            max_error: 0.2,
            geometry_delta_norm: 0.3,
            cl: 0.4,
            cd: 0.5,
        }],
    }
}

#[test]
fn inverse_design_qdes_impl_rejects_empty_targets() {
    let result = inverse_design_qdes_impl(
        &[1.0, 0.0, 0.5, 0.06, 0.0, 0.0, 0.5, -0.06, 1.0, 0.0],
        0.0,
        1e6,
        0.0,
        9.0,
        "cp",
        &[],
        &[],
        &[],
        &[],
        Some(3),
        Some(0.6),
        &|q: &QdesRequest<f64>| Ok(solution_of(q)),
    );
    assert!(!result.success);
    assert!(result.error.as_ref().unwrap().contains("required"));
}

#[test]
fn full_inverse_design_mdes_impl_naca0012() {
    let buf: Vec<f64> = generate_naca4_from_string("0012", 65, &elementary());
    let result = full_inverse_design_mdes_impl(
        &buf,
        0.0,
        false,
        0.0,
        &[],
        65,
        &|q: &MdesRequest<f64>| MdesDesignResult {
            x: q.x.clone(),
            y: q.y.clone(),
            qspec_x: vec![],
            qspec_values: vec![],
            cl: q.alpha_deg,
            cm: 0.0,
            success: q.nc == 65 && q.target_q.is_none(),
            error: None,
        },
    );

    assert!(result.success, "MDES should succeed: {:?}", result.error);
    assert!(result.x.len() > 10);
    assert_eq!(result.x.len(), result.y.len());
}

#[test]
fn pi_and_radians_are_those_of_the_number_type() {
    assert_eq!(pi::<f64>(), std::f64::consts::PI);
    assert_eq!(radians(33.3f64), 33.3f64.to_radians());
}

#[test]
fn points_survive_as_coordinates() {
    let pts = diamond_pts();
    let flat = points_to_flat(&pts);
    assert_eq!(flat[2..4], [0.75, 0.04]);
    assert_eq!(parse_coords(&flat).unwrap(), pts);
    assert_eq!(points_from_flat(&flat), pts);
    assert_eq!(flat_from_points(&pts)[1], (0.75, 0.04));
    assert!(parse_coords(&flat[..4]).is_none());
    assert!(parse_coords(&flat[..7]).is_none());
}

#[test]
fn naca_points_follow_their_formulas() {
    let coords = generate_naca4_impl(0.02, 0.4, 0.12, 11, &elementary());
    let x = 0.5 * (1.0 - (std::f64::consts::PI * 3.0 / 10.0).cos());
    let y_t = 5.0
        * 0.12
        * (0.2969 * x.sqrt() - 0.1260 * x - 0.3516 * x.powi(2) + 0.2843 * x.powi(3)
            - 0.1015 * x.powi(4));
    let y_c = (0.02 / (0.4 * 0.4)) * (2.0 * 0.4 * x - x * x);
    let theta = ((2.0 * 0.02 / (0.4 * 0.4)) * (0.4 - x)).atan();
    let upper = coords[10 - 3];
    let lower = coords[10 + 3];
    assert!((upper.x - (x - y_t * theta.sin())).abs() < 1e-15);
    assert!((upper.y - (y_c + y_t * theta.cos())).abs() < 1e-15);
    assert!((lower.x - (x + y_t * theta.sin())).abs() < 1e-15);
    assert!((lower.y - (y_c - y_t * theta.cos())).abs() < 1e-15);
}

#[test]
fn designations_are_read_digit_by_digit() {
    let e = elementary();
    let by_name: Vec<f64> = generate_naca4_from_string("2412", 20, &e);
    assert_eq!(by_name, generate_naca4(0.02, 0.4, 0.12, 20, &e));
    let thin: Vec<f64> = generate_naca4_from_string("2409", 20, &e);
    assert_eq!(thin, generate_naca4(0.02, 0.4, 0.09, 20, &e));
    for bad in ["24+9", "24x2", "2412a", "x412", "2x12", "241é", "é12"] {
        let none: Vec<f64> = generate_naca4_from_string(bad, 20, &e);
        assert!(none.is_empty());
    }
    let few: Vec<f64> = generate_naca4_from_string("0012", 3, &e);
    assert_eq!(few.len(), 40);
}

#[test]
fn a_height_is_that_of_the_first_segment() {
    let s = vec![point(0.0, 0.0), point(1.0, 2.0), point(1.0, 5.0), point(2.0, 7.0)];
    assert_eq!(interp_y_at_x(&s, 0.25), Some(0.5));
    assert_eq!(interp_y_at_x(&s, 3.0), None);
    assert_eq!(interp_surface(&s, 1.5), 6.0);
    assert_eq!(interp_surface(&s, 9.0), 7.0);
    assert_eq!(interp_surface(&s[..1], 9.0), 0.0);
    assert_eq!(interp_surface::<f64>(&[], 9.0), 0.0);
    assert_eq!(interp_y(&s, 0.5), 1.0);
    assert_eq!(interp_y(&s, 9.0), 0.0);
    let upright = vec![point(1.0, 2.0), point(1.0, 5.0)];
    assert_eq!(interp_y_at_x(&upright, 1.0), Some(3.5));
    assert_eq!(interp_surface(&upright, 1.0), 5.0);
    assert_eq!(interp_y(&upright, 1.0), 2.0);
}

#[test]
fn segments_cross_within_their_spans() {
    let p = seg_intersect(point(0.0, 0.0), point(2.0, 2.0), point(0.0, 2.0), point(2.0, 0.0));
    assert_eq!(p, Some(point(1.0, 1.0)));
    let q = seg_intersect(point(0.0, 0.0), point(0.4, 0.4), point(0.0, 2.0), point(2.0, 0.0));
    assert_eq!(q, None);
    let r = seg_intersect(point(0.0, 0.0), point(1.0, 1.0), point(0.0, 1.0), point(1.0, 2.0));
    assert_eq!(r, None);
}

#[test]
fn a_fold_is_trimmed_at_the_crossing() {
    let surface = vec![
        point(0.0, 0.0),
        point(0.5, 0.0),
        point(0.95, 0.0),
        point(1.05, 0.0),
        point(2.0, 0.0),
    ];
    let (sin, cos) = 1.0f64.sin_cos();
    let plain = flap_surface(&surface, 1.0, 0.0, cos, sin);
    assert_eq!(plain.len(), 5);
    let hinge_below = flap_surface(&surface, 1.0, -0.5, cos, -sin);
    assert!(hinge_below.len() <= 5);
    let all_fore = flap_surface(&surface, 3.0, 0.0, cos, sin);
    assert_eq!(all_fore, surface);
    let all_aft = flap_surface(&surface, -1.0, 0.0, 1.0, 0.0);
    assert_eq!(all_aft.len(), 5);

    let fore = vec![point(0.0, 0.0), point(1.0, 1.0), point(0.2, 0.9)];
    let crossed = flap_surface(
        &[fore[0], fore[1], fore[2], point(2.0, 0.0), point(2.0, 4.0)],
        1.0,
        0.0,
        -1.0,
        0.0,
    );
    assert_eq!(crossed, vec![point(0.0, 0.0), point(0.0, 0.0), point(0.0, -4.0)]);
}

#[test]
fn moves_of_an_outline_are_exact() {
    let coords = [0.0, 0.0, 1.0, 0.0, 1.0, 1.0];
    let moved = gdes_translate(&coords, 0.5, -0.25);
    assert_eq!(moved.coords, vec![0.5, -0.25, 1.5, -0.25, 1.5, 0.75]);
    let scaled = gdes_scale(&coords, 2.0, 3.0, 1.0, 0.0);
    assert_eq!(scaled.coords, vec![-1.0, 0.0, 1.0, 0.0, 1.0, 3.0]);
    let turned = gdes_rotate(&coords, 90.0, 0.0, 0.0, &elementary());
    assert!((turned.coords[2]).abs() < 1e-15);
    assert!((turned.coords[3] - 1.0f64).abs() < 1e-15);
}

#[test]
fn changes_say_what_is_wrong() {
    let e = elementary();
    let short = [0.0, 0.0, 1.0, 0.0];
    let three = [0.0, 0.0, 1.0, 0.0, 1.0, 1.0];
    let flap = |p: &Vec<Point<f64>>, _: (f64, f64, f64)| p.clone();
    for r in [
        gdes_rotate(&short, 1.0, 0.0, 0.0, &e),
        gdes_scale(&short, 1.0, 1.0, 0.0, 0.0),
        gdes_translate(&short, 1.0, 1.0),
        gdes_set_te_gap(&short, 0.0, 0.5),
        gdes_set_le_radius(&short, 1.0),
        gdes_scale_thickness(&short, 1.0),
        gdes_scale_camber(&short, 1.0),
        gdes_flap(&short, 0.7, 0.5, 1.0, &flap),
    ] {
        assert_eq!((r.coords.len(), r.success), (0, false));
        assert_eq!(r.error.as_deref(), Some("Invalid coordinates"));
    }
    for r in [
        gdes_set_te_gap(&three, 0.0, 0.5),
        gdes_set_le_radius(&three, 1.0),
        gdes_scale_thickness(&three, 1.0),
        gdes_scale_camber(&three, 1.0),
        gdes_flap(&three, 0.7, 0.5, 1.0, &flap),
    ] {
        assert_eq!(r.error.as_deref(), Some("Need at least 4 points"));
    }
}

#[test]
fn a_flap_from_elsewhere_is_handed_the_hinge() {
    let coords = points_to_flat(&diamond_pts());
    let flap = |p: &Vec<Point<f64>>, (x, y, d): (f64, f64, f64)| {
        vec![point(x, y), point(d, p.len() as f64)]
    };
    let r = gdes_flap(&coords, 0.75, 0.5, 10.0, &flap);
    assert_eq!(r.coords, vec![0.75, 0.5, 10.0, 9.0]);
    assert!(r.success && r.error.is_none());
}

#[test]
fn the_trailing_edge_opens_to_the_gap() {
    let pts = diamond_pts();
    assert_eq!(find_leading_edge(&pts), 4);
    let opened = set_te_gap_impl(&pts, 0.1, 0.5);
    let first = opened[0];
    let last = opened[8];
    assert!((first.y - last.y - 0.1).abs() < 1e-15);
    assert_eq!(opened[3], pts[3]);
    assert_eq!(opened[4], pts[4]);
}

#[test]
fn the_nose_is_scaled_over_its_extent() {
    let pts = vec![point(1.0, 0.0), point(0.06, 0.02), point(0.0, 0.01), point(0.5, -0.1)];
    let r = set_le_radius_impl(&pts, 2.0);
    let local: f64 = 0.06 / 0.15;
    assert!((r[1].y - 0.02 * (1.0 + 1.0 * (1.0 - local * local))).abs() < 1e-15);
    assert_eq!(r[2].y, 0.02);
    assert_eq!(r[3], pts[3]);
}

#[test]
fn thickness_and_camber_are_scaled_apart() {
    let pts = vec![
        point(1.0, 0.0),
        point(0.5, 0.1),
        point(0.0, 0.0),
        point(0.5, -0.02),
        point(1.0, 0.0),
    ];
    let thick = scale_thickness_impl(&pts, 2.0);
    assert!((thick[1].y - 0.16f64).abs() < 1e-15);
    assert!((thick[3].y + 0.08f64).abs() < 1e-15);
    let curved = scale_camber_impl(&pts, 2.0);
    assert!((curved[1].y - 0.14f64).abs() < 1e-15);
    assert!((curved[3].y - 0.02f64).abs() < 1e-15);
}

#[test]
fn knots_are_put_in_order() {
    let knots = [(1.0, 3.0), (0.0, 1.0), (0.5, 2.0)];
    assert_eq!(interpolate_spacing(&knots, 0.25), 1.5);
    assert_eq!(interpolate_spacing(&knots, -1.0), 1.0);
    assert_eq!(interpolate_spacing(&knots, 2.0), 3.0);
    assert_eq!(interpolate_spacing(&knots[..1], 0.3), 3.0);
    assert_eq!(interpolate_spacing::<f64>(&[], 0.3), 1.0);
    let doubled = [(0.0, 1.0), (0.5, 2.0), (0.5, 4.0), (1.0, 6.0)];
    assert_eq!(interpolate_spacing(&doubled, 0.75), 5.0);
}

#[test]
fn no_density_is_spread_evenly() {
    assert_eq!(spacing_to_distribution(&[0.0; 5], 3), vec![0.0, 0.5, 1.0]);
    assert_eq!(spacing_to_distribution(&[0.0], 0), Vec::<f64>::new());
}

#[test]
fn curvature_asks_for_density() {
    let d: Vec<f64> = curvature_to_spacing(&[0.0, 1.0, 4.0], &elementary());
    assert!((d[0] - 0.3).abs() < 1e-15);
    assert!((d[1] - 0.65).abs() < 1e-15);
    assert!((d[2] - 1.0).abs() < 1e-15);
    assert_eq!(curvature_to_spacing(&[0.0; 3], &elementary()), vec![1.0; 3]);
    assert!(curvature_to_spacing::<f64, _>(&[], &elementary()).is_empty());
}

/// A straight line from the first point, of unit length.
fn straight() -> impl Splines<f64, Point<f64>> {
    SplineFunctions {
        from_points: |p: &Vec<Point<f64>>| if p[0].x < 0.0 { None } else { Some(p[0]) },
        total_arc_length: |_: &Point<f64>| 1.0,
        curvature: |_: &Point<f64>, _: f64| 0.0,
        evaluate: |z: &Point<f64>, s: f64| point(z.x + s, z.y),
        resample_xfoil: |z: &Point<f64>, n: usize, (a, b, c): (f64, f64, f64)| {
            vec![*z, point(n as f64, a), point(b, c)]
        },
        resample_cosine: |z: &Point<f64>, n: usize| vec![*z; n],
    }
}

#[test]
fn an_outline_is_repaneled_along_its_spline() {
    let coords = diamond_coords();
    let knots = [0.0, 1.0, 1.0, 1.0];
    let e = elementary();
    let r = repanel_with_spacing(&coords, &knots, 4, &straight(), &e);
    assert_eq!(r.len(), 10);
    for i in 0..5 {
        assert!((r[2 * i] - (1.0 + 0.25 * i as f64)).abs() < 1e-9);
    }
    let weighted = repanel_with_spacing_and_curvature(&coords, &knots, 4, 7.0, &straight(), &e);
    assert_eq!(weighted.len(), 10);
    assert!(repanel_with_spacing(&coords[..4], &knots, 4, &straight(), &e).is_empty());
    assert!(repanel_with_spacing(&coords, &knots[..2], 4, &straight(), &e).is_empty());
    let none: Vec<f64> = coords.iter().map(|c| c - 2.0).collect();
    assert!(repanel_with_spacing(&none, &knots, 4, &straight(), &e).is_empty());
    let table = compute_curvature_spacing(&coords, 3, &straight(), &e);
    assert_eq!(table.len(), 20);
    assert_eq!(table[18..], [1.0, 1.0]);
    assert!(compute_curvature_spacing(&coords[..4], 3, &straight(), &e).is_empty());
}

#[test]
fn repaneling_by_curvature_has_its_parameters() {
    let coords = diamond_coords();
    assert_eq!(
        repanel_xfoil(&coords, 160, &straight()),
        vec![1.0, 0.0, 160.0, 1.0, 0.15, 0.667]
    );
    assert_eq!(
        repanel_xfoil_with_params(&coords, 9, 2.0, 3.0, 4.0, &straight()),
        vec![1.0, 0.0, 9.0, 2.0, 3.0, 4.0]
    );
    assert!(repanel_xfoil(&coords[..5], 160, &straight()).is_empty());
}

#[test]
fn a_morph_starts_and_ends_with_its_shapes() {
    let e = elementary();
    let from = [0.0, 1.0, 2.0, 3.0];
    let to = [4.0, 5.0, 6.0, 9.0];
    assert_eq!(lerp_points(&from, &to, 0.0, &e), from);
    assert_eq!(lerp_points(&from, &to, 1.0, &e), to);
    assert_eq!(lerp_array(&from, &to, 0.5, &e), vec![2.0, 3.0, 4.0, 6.0]);
    assert_eq!(lerp_array(&[], &to, 0.5, &e), to);
    assert_eq!(lerp_array(&from, &[], 0.5, &e), from);
    assert_eq!(lerp_array(&[0.0, 4.0], &[0.0, 0.0, 0.0], 0.0, &e), vec![0.0, 2.0, 4.0]);
    assert_eq!(
        lerp_points(&[0.0, 0.0, 4.0, 8.0], &[0.0; 6], 0.5, &e),
        vec![0.0, 0.0, 1.0, 2.0, 2.0, 4.0]
    );
    assert_eq!(lerp_points(&[1.0], &to, 0.5, &e), to);
    assert_eq!(lerp_points(&from, &[1.0], 0.5, &e), from);
    let all = lerp_morph_state(&from, &to, &to, &from, &[1.0], &[3.0], &[], &[7.0], 0.5, &e);
    assert_eq!(all.coordinates, vec![2.0, 3.0, 4.0, 6.0]);
    assert_eq!(all.panels, vec![2.0, 3.0, 4.0, 6.0]);
    assert_eq!((all.cp, all.cp_x), (vec![2.0], vec![7.0]));
}

#[test]
fn streamlines_survive_their_encoding() {
    let e = elementary();
    let lines = vec![vec![(0.0, 1.0), (2.0, 3.0)], vec![], vec![(4.0, 5.0)]];
    let code = encode_streamlines(&lines);
    assert_eq!(code, vec![3.0, 2.0, 0.0, 1.0, 2.0, 3.0, 0.0, 1.0, 4.0, 5.0]);
    assert_eq!(decode_streamlines(&code, &e), lines);
    assert_eq!(decode_streamlines(&code[..4], &e), vec![vec![(0.0, 1.0)]]);
    assert!(decode_streamlines(&[], &e).is_empty());
    assert_eq!(decode_streamlines(&[2.0], &e).len(), 0);
}

#[test]
fn streamlines_are_morphed_line_by_line() {
    let e = elementary();
    let a = encode_streamlines(&[vec![(0.0, 0.0), (2.0, 2.0)]]);
    let b = encode_streamlines(&[
        vec![(4.0, 4.0), (6.0, 6.0)],
        vec![(0.0, 0.0), (0.0, 0.0), (0.0, 0.0)],
        vec![],
    ]);
    let half = decode_streamlines(&lerp_streamlines(&a, &b, 0.5, &e), &e);
    assert_eq!(half[0], vec![(2.0, 2.0), (4.0, 4.0)]);
    assert_eq!(half[1], vec![(0.0, 0.0), (0.5, 0.5), (1.0, 1.0)]);
    assert_eq!(half[2], vec![(0.0, 0.0), (2.0, 2.0)]);
    assert_eq!(lerp_streamlines(&[], &b, 0.5, &e), b);
    assert_eq!(lerp_streamlines(&a, &[], 0.5, &e), a);
}

#[test]
fn coordinates_are_read_line_by_line() {
    let text: Vec<char> = "NACA 0012\n 1.0  0.5 extra\r\n\n-0.25\t1e-3\n2.0\nx 1.0\n3 4".chars().collect();
    let parse = |w: &Vec<char>, _: ()| w.iter().collect::<String>().parse::<f64>().ok();
    let e = elementary();
    assert_eq!(parse_dat(&text, &parse, &e), vec![(1.0, 0.5), (-0.25, 0.001), (3.0, 4.0)]);
    assert!(parse_dat(&[], &parse, &e).is_empty());
}

#[test]
fn the_numbers_of_points_are_passed_over() {
    let parse = |w: &Vec<char>, _: ()| w.iter().collect::<String>().parse::<f64>().ok();
    let e = elementary();
    let read = |text: &str| parse_dat(&text.chars().collect::<Vec<char>>(), &parse, &e);
    let points = vec![(0.0, 0.0), (0.5, 0.06), (1.0, 0.0), (0.0, 0.0), (0.5, -0.06), (1.0, 0.0)];
    let text = "NACA 0012\n3. 3.\n\n0.0 0.0\n0.5 0.06\n1.0 0.0\n\n0.0 0.0\n0.5 -0.06\n1.0 0.0\n";
    assert_eq!(read(text), points);
    let text = "NACA 0012\n3 3\n0.0 0.0\n0.5 0.06\n1.0 0.0\n0.0 0.0\n0.5 -0.06\n1.0 0.0";
    assert_eq!(read(text), points);
    assert_eq!(read("scaled\n100 2\n50 6\n"), vec![(100.0, 2.0), (50.0, 6.0)]);
    assert_eq!(
        read("scaled\n100 2\n\n50 5\n0 0\n50 -5\n"),
        vec![(100.0, 2.0), (50.0, 5.0), (0.0, 0.0), (50.0, -5.0)]
    );
    assert_eq!(read("scaled\n2.5 2\n\n50 6\n"), vec![(2.5, 2.0), (50.0, 6.0)]);
    assert_eq!(read("name\n1.0 0.0\n\n0.5 0.1\n"), vec![(1.0, 0.0), (0.5, 0.1)]);
}

#[test]
fn a_list_is_morphed_into_a_single_number() {
    let e = elementary();
    assert_eq!(lerp_array(&[1.0, 2.0], &[5.0], 1.0, &e), vec![5.0]);
    assert_eq!(lerp_array(&[1.0, 2.0], &[5.0], 0.0, &e), vec![1.0]);
    assert_eq!(lerp_points(&[1.0, 2.0, 3.0, 4.0], &[5.0, 6.0], 1.0, &e), vec![5.0, 6.0]);
}

#[test]
fn a_designation_has_four_digits() {
    let e = elementary();
    assert!(generate_naca4_from_string("00+5", 30, &e).is_empty());
    assert!(generate_naca4_from_string("+012", 30, &e).is_empty());
    assert_eq!(generate_naca4_from_string("0005", 30, &e).len(), 120);
}

#[test]
fn an_analysis_shows_the_flow() {
    let r = analyze_airfoil_impl(&diamond_coords(), 5.0, &make, &flow);
    assert_eq!((r.cl, r.cd, r.cm, r.psi_0), (0.5, 0.0, -0.01, 0.125));
    assert_eq!((r.x_tr_upper, r.x_tr_lower, r.residual), (1.0, 1.0, 0.0));
    assert!(r.success && r.converged && r.error.is_none());
    assert_eq!(r.cp_x[0], 0.875);
    let mut turned = diamond_coords();
    turned[0] = -1.0;
    let r = analyze_airfoil_impl(&turned, 5.0, &make, &flow);
    assert_eq!(r.error.as_deref(), Some("Geometry error: inside out"));
    let r = analyze_airfoil_impl(&diamond_coords(), 50.0, &make, &flow);
    assert_eq!(r.error.as_deref(), Some("Solver error: singular"));
    assert_eq!((r.cl, r.x_tr_upper, r.cp.len()), (0.0, 1.0, 0));
    let r = analyze_airfoil_impl(&[1.0, 0.0], 5.0, &make, &flow);
    assert_eq!(
        r.error.as_deref(),
        Some("Invalid coordinates: need at least 3 points (6 values)")
    );
}

#[test]
fn a_new_angle_forgets_the_result() {
    let mut foil: RustFoil<f64, Vec<Point<f64>>> = RustFoil::new();
    let none = foil.solve(&flow);
    assert_eq!(none.error.as_deref(), Some("No geometry set"));
    assert!(foil.last_solution.is_some());
    assert_eq!(foil.panel_count(&|b: &Vec<Point<f64>>| b.len()), 0);
    assert!(foil.set_coordinates(&diamond_coords(), &make));
    assert!(foil.last_solution.is_none());
    foil.set_alpha(4.0);
    let r = foil.solve(&flow);
    assert_eq!(r.cl, 0.4);
    assert_eq!(foil.last_solution.as_ref().unwrap().cl, 0.4);
    assert!(!foil.set_coordinates(&[0.0; 5], &make));
    assert!(foil.body.is_none() && foil.last_solution.is_some());
    foil.set_alpha(5.0);
    assert!(foil.last_solution.is_none());
}

#[test]
fn steps_agree_with_one_analysis() {
    let mut foil: RustFoil<f64, Vec<Point<f64>>> = RustFoil::new();
    assert!(foil.set_coordinates(&diamond_coords(), &make));
    foil.set_alpha(5.0);
    let a = foil.solve(&flow);
    let again = foil.solve(&flow);
    assert_eq!((a.cl, &a.cp, &a.gamma), (again.cl, &again.cp, &again.gamma));
    let b = analyze_airfoil_impl(&diamond_coords(), 5.0, &make, &flow);
    assert_eq!((a.cl, a.cm, a.psi_0, a.success), (b.cl, b.cm, b.psi_0, b.success));
    assert_eq!((a.cp, a.cp_x, a.gamma, a.error), (b.cp, b.cp_x, b.gamma, b.error));
}

#[test]
fn an_encoding_counts_lines_and_points() {
    let lines = [vec![(1.0, 2.0), (3.0, 4.0)], vec![], vec![(5.0, 6.0)]];
    let data = encode_streamlines(&lines);
    assert_eq!(data, vec![3.0, 2.0, 1.0, 2.0, 3.0, 4.0, 0.0, 1.0, 5.0, 6.0]);
    assert_eq!(data.len(), 1 + 3 + 2 * 3);
    assert_eq!(decode_streamlines(&data, &elementary()), lines.to_vec());
}

#[test]
fn the_body_is_repaneled_from_its_panel_ends() {
    let mut foil: RustFoil<f64, Vec<Point<f64>>> = RustFoil::new();
    let ends = |b: &Vec<Point<f64>>| {
        b.windows(2).map(|w| (w[0], w[1])).collect::<Vec<(Point<f64>, Point<f64>)>>()
    };
    assert!(foil.repanel_cosine(3, &ends, &straight()).is_empty());
    foil.set_coordinates(&diamond_coords(), &make);
    assert_eq!(
        foil.repanel_cosine(3, &ends, &straight()),
        vec![1.0, 0.0, 1.0, 0.0, 1.0, 0.0, 1.0, 0.0]
    );
}

const BOUNDS: [f64; 4] = [-0.5, 2.0, -0.75, 0.75];

#[test]
fn streamlines_are_traced_within_bounds() {
    let trace = |p: &Vec<Point<f64>>, (s, a, o): (&InviscidSolution<f64>, f64, StreamlineOptions<f64>)| {
        vec![
            vec![(o.seed_x, o.x_min), (o.x_max, o.y_min), (o.y_max, o.step_size)],
            vec![(o.seed_count as f64, o.max_steps as f64), (a, s.psi_0 + p.len() as f64)],
        ]
    };
    let r = compute_streamlines_impl(&diamond_coords(), 5.0, 7, &BOUNDS, &make, &flow, &trace);
    assert!(r.success);
    assert_eq!(r.streamlines[0], vec![[-0.5, -1.0], [2.0, -0.75], [0.75, 0.01]]);
    assert_eq!(r.streamlines[1], vec![[7.0, 2000.0], [5.0, 9.125]]);
    let r = compute_streamlines_impl(&[0.0; 4], 5.0, 7, &BOUNDS, &make, &flow, &trace);
    assert_eq!(r.error.as_deref(), Some("Invalid coordinates"));
    let r = compute_streamlines_impl(&diamond_coords(), 5.0, 7, &[1.0], &make, &flow, &trace);
    assert_eq!(
        r.error.as_deref(),
        Some("bounds must have 4 values: [x_min, x_max, y_min, y_max]")
    );
    let r = compute_streamlines_impl(&diamond_coords(), 50.0, 7, &BOUNDS, &make, &flow, &trace);
    assert_eq!(r.error.as_deref(), Some("Solver error: singular"));
}

#[test]
fn the_dividing_streamline_may_not_be_found() {
    let trace = |_: &Vec<Point<f64>>, (_, a, o): (&InviscidSolution<f64>, f64, StreamlineOptions<f64>)| {
        if a > 10.0 {
            None
        } else {
            Some(vec![(o.seed_count as f64, o.seed_x)])
        }
    };
    let r = compute_dividing_streamline_impl(&diamond_coords(), 5.0, &BOUNDS, &make, &flow, &trace);
    assert_eq!(r.streamline, vec![[33.0, -0.5]]);
    let r = compute_dividing_streamline_impl(&diamond_coords(), 15.0, &BOUNDS, &make, &flow, &trace);
    assert_eq!(r.error.as_deref(), Some("Unable to bracket dividing streamline"));
    let r = compute_dividing_streamline_impl(&[], 5.0, &BOUNDS, &make, &flow, &trace);
    assert_eq!(r.error.as_deref(), Some("Invalid coordinates"));
}

#[test]
fn the_extent_of_a_grid_leaves_out_what_is_not_finite() {
    let sample = |_: &Vec<Point<f64>>, (s, _, o): (&InviscidSolution<f64>, f64, GridOptions<f64>)| {
        vec![f64::NAN, o.x_min, f64::INFINITY, o.y_max, s.psi_0]
    };
    let r = compute_psi_grid_impl(
        &diamond_coords(),
        5.0,
        &BOUNDS,
        &[3, 4],
        &make,
        &flow,
        &sample,
    );
    assert_eq!((r.psi_min, r.psi_max, r.psi_0), (-0.5, 0.75, 0.125));
    assert_eq!((r.nx, r.ny, r.grid.len()), (3, 4, 5));
    let r = compute_psi_grid_impl(&diamond_coords(), 5.0, &BOUNDS, &[3], &make, &flow, &sample);
    assert_eq!(r.error.as_deref(), Some("resolution must have 2 values: [nx, ny]"));
    assert_eq!((r.nx, r.psi_min), (0, 0.0));
    let r = compute_psi_grid_impl(&diamond_coords(), 5.0, &[], &[3], &make, &flow, &sample);
    assert_eq!(
        r.error.as_deref(),
        Some("bounds must have 4 values: [x_min, x_max, y_min, y_max]")
    );
}

fn bl_row(panel_idx: usize, x: f64, y: f64, dstr: f64, is_wake: bool) -> BlRow<f64> {
    BlRow {
        panel_idx,
        x_coord: x,
        y_coord: y,
        theta: 0.5 * dstr,
        dstr,
        mass: 10.0 * dstr,
        h: 2.0,
        hk: 2.1,
        cf: 0.003,
        uedg: 0.9,
        ampl: 1.5,
        is_laminar: !is_wake,
        is_wake,
    }
}

fn result_of(cl: f64) -> AnalysisResult<f64> {
    AnalysisResult {
        cl,
        cd: 0.01,
        cm: 0.0,
        cp: vec![],
        cp_x: vec![],
        gamma: vec![],
        psi_0: 0.25,
        converged: true,
        iterations: 3,
        residual: 1e-6,
        x_tr_upper: 0.3,
        x_tr_lower: 0.6,
        success: true,
        error: None,
    }
}

fn snapshot() -> FaithfulSnapshot<f64> {
    FaithfulSnapshot {
        nodes: vec![point(1.0, 0.0), point(0.0, 0.0), point(1.0, -0.01)],
        gamma: vec![0.9, 0.0, -0.9],
        psi_0: 0.25,
        cp_x: vec![1.0, 0.0, 1.0],
        result: result_of(0.5),
        upper_rows: vec![
            bl_row(1, 0.0, 0.0, 0.01, false),
            bl_row(0, 1.0, 0.0, 0.03, false),
            bl_row(3, 1.5, 0.0, 0.02, true),
            bl_row(4, 2.0, 0.0, 0.04, true),
        ],
        lower_rows: vec![bl_row(1, 0.0, 0.0, 0.02, false), bl_row(2, 1.0, 0.0, 0.01, false)],
        iblte_upper: 1,
        iblte_lower: 9,
        wake_x: vec![1.5, 2.0, 2.5],
        wake_y: vec![0.0, 0.1, 0.2],
    }
}

#[test]
fn sources_stand_at_the_nodes_of_the_surfaces() {
    let sigma = build_surface_sigma_from_snapshot(&snapshot());
    assert_eq!(sigma, vec![0.3, 0.2, 0.1]);
    let wake = build_wake_source_panels_from_snapshot(&snapshot()).unwrap();
    assert_eq!(wake.sigma, vec![0.2, 0.4, 0.0]);
    assert_eq!(wake.x, vec![1.5, 2.0, 2.5]);
    let mut short = snapshot();
    short.wake_x.truncate(1);
    assert!(build_wake_source_panels_from_snapshot(&short).is_none());
}

#[test]
fn the_effective_body_is_moved_out_by_the_displacement() {
    let body = build_effective_body_polygon_from_snapshot(&snapshot(), &elementary());
    assert_eq!(body.len(), 2 + 2 + 2 + 2);
    assert_eq!(body[0], point(0.0, 0.01));
    assert_eq!(body[1], point(1.0, 0.03));
    let f_u = 0.03 / 0.04;
    assert!((body[2].x - 1.5).abs() < 1e-15);
    assert!((body[2].y - 0.02 * f_u).abs() < 1e-15);
    assert!((body[3].y - 0.04 * f_u).abs() < 1e-15);
    assert!((body[4].y + 0.04 * (1.0 - f_u)).abs() < 1e-15);
    assert!((body[5].y + 0.02 * (1.0 - f_u)).abs() < 1e-15);
    assert_eq!(body[6], point(1.0, -0.01));
    assert_eq!(body[7], point(0.0, -0.02));
    let field = FaithfulFlowField::from_snapshot(&snapshot(), 180.0, &elementary());
    assert_eq!(field.alpha, std::f64::consts::PI);
    assert_eq!(field.v_inf, 1.0);
    assert_eq!(field.effective_body_ref().unwrap().len(), 8);
}

fn rows() -> (Vec<BlRow<f64>>, Vec<BlRow<f64>>) {
    let s = snapshot();
    (s.upper_rows, s.lower_rows)
}

fn solver() -> impl FaithfulSolver<f64, usize, usize> {
    FaithfulFunctions {
        body: |p: &Vec<Point<f64>>| {
            if p[0].x < 0.0 {
                Err("inside out".to_string())
            } else {
                Ok(p.windows(2).map(|w| (w[0], w[1])).collect::<Vec<(Point<f64>, Point<f64>)>>())
            }
        },
        factorize: |n: &Vec<(f64, f64)>| {
            if n[0].0 > 5.0 {
                Err("too far".to_string())
            } else {
                Ok(n.len())
            }
        },
        psi_0: |_: &usize, a: f64| 0.01 * a,
        influence: |f: &usize| if *f > 20 { Err("too many".to_string()) } else { Ok(2 * f) },
        operate: |f: &usize, d: &usize, t: &NodeTable<f64>, p: OperatingPoint<f64>| {
            if p.reynolds <= 0.0 {
                return Err("no Reynolds number".to_string());
            }
            let (mut upper_rows, mut lower_rows) = rows();
            if p.ncrit < 0.0 {
                upper_rows.clear();
                lower_rows.clear();
            }
            Ok(Operated {
                cl: t.alpha,
                cd: p.reynolds,
                cm: (*f + *d) as f64,
                converged: p.re_type == ReType::Type1,
                iterations: p.max_iterations,
                residual: t.s[t.s.len() - 1],
                x_tr_upper: p.xstrip_upper,
                x_tr_lower: p.xstrip_lower,
                gamma: vec![0.5, -2.0],
                panel_x: t.x.clone(),
                upper_rows,
                lower_rows,
                iblte_upper: 1,
                iblte_lower: 9,
                wake_x: vec![1.5, 2.0, 2.5],
                wake_y: t.y.clone(),
            })
        },
    }
}

#[test]
fn the_nodes_of_a_body_close_only_once() {
    let panels = vec![(point(0.0, 0.0), point(1.0, 0.0)), (point(1.0, 0.0), point(0.0, 1e-11))];
    assert_eq!(find_nodes(&panels), vec![point(0.0, 0.0), point(1.0, 0.0)]);
    let open = vec![(point(0.0, 0.0), point(1.0, 0.0)), (point(1.0, 0.0), point(0.0, 0.5))];
    assert_eq!(find_nodes(&open).len(), 3);
    assert!(find_nodes::<f64>(&vec![]).is_empty());
    let s = arc_lengths(&elementary(), &[point(0.0, 0.0), point(3.0, 4.0), point(3.0, 5.0)]);
    assert_eq!(s, vec![0.0, 5.0, 6.0]);
    assert_eq!(arc_lengths::<f64, _>(&elementary(), &[]), vec![0.0]);
}

#[test]
fn kinds_of_reynolds_numbers_are_numbered() {
    assert_eq!(re_type_from_int(1), ReType::Type1);
    assert_eq!(re_type_from_int(2), ReType::Type2);
    assert_eq!(re_type_from_int(3), ReType::Type3);
    assert_eq!(re_type_from_int(0), ReType::Type1);
    assert_eq!(re_type_from_int(9), ReType::Type1);
}

#[test]
fn a_viscous_analysis_goes_step_by_step() {
    let coords = [1.0, 0.0, 0.0, 0.0, 1.0, -1.0];
    let e = elementary();
    let s = solver();
    let run = |c: &[f64], re: f64| {
        analyze_airfoil_faithful(c, 180.0, re, 0.0, 9.0, 50, 2, 0.4, 0.6, &s, &e)
    };
    let r = run(&coords, 1e6);
    assert!(r.success);
    assert_eq!((r.cl, r.cd, r.cm), (std::f64::consts::PI, 1e6, 9.0));
    assert_eq!((r.psi_0, r.iterations, r.converged), (1.8, 50, false));
    assert_eq!((r.x_tr_upper, r.x_tr_lower), (0.4, 0.6));
    assert_eq!(r.cp, vec![0.75, -3.0]);
    assert_eq!(r.cp_x, vec![1.0, 0.0, 1.0]);
    assert_eq!(r.residual, 1.0 + 2.0f64.sqrt());
    let message = |r: AnalysisResult<f64>| r.error.unwrap();
    assert_eq!(
        message(run(&coords[..4], 1e6)),
        "Invalid coordinates: need at least 3 points (6 values)"
    );
    assert_eq!(message(run(&[-1.0; 6], 1e6)), "Geometry error: inside out");
    assert_eq!(message(run(&[9.0; 6], 1e6)), "Factorization error: too far");
    let long: Vec<f64> = (0..60).map(|i| 0.01 * i as f64).collect();
    assert_eq!(message(run(&long, 1e6)), "DIJ error: too many");
    assert_eq!(message(run(&coords, -1.0)), "Faithful solver error: no Reynolds number");
    let bare = analyze_airfoil_faithful(&coords, 180.0, 1e6, 0.0, -1.0, 50, 2, 0.4, 0.6, &s, &e);
    assert!(bare.success);
    assert_eq!((bare.cl, bare.cp), (std::f64::consts::PI, vec![0.75, -3.0]));
}

#[test]
fn the_boundary_layer_is_shown_up_to_the_trailing_edge() {
    let coords = [1.0, 0.0, 0.0, 0.0, 1.0, -1.0];
    let e = elementary();
    let d = get_bl_distribution_faithful(&coords, 1.0, 1e6, 0.0, 9.0, 50, &solver(), &e);
    assert_eq!(d.x_upper, vec![0.0, 1.0]);
    assert_eq!(d.delta_star_lower, vec![0.02, 0.01]);
    assert_eq!(d.theta_upper, vec![0.005, 0.015]);
    assert_eq!((d.x_tr_upper, d.converged, d.success), (1.0, true, true));
    let d = get_bl_distribution_faithful(&coords, 1.0, 0.0, 0.0, 9.0, 50, &solver(), &e);
    assert_eq!(d.error.as_deref(), Some("Faithful solver error: no Reynolds number"));
    assert!(d.x_upper.is_empty() && !d.success);
    let v = get_bl_visualization_faithful(&coords, 1.0, 1e6, 0.0, 9.0, 50, &solver(), &e);
    assert_eq!(v.wake.delta_star, vec![0.02, 0.04]);
    assert_eq!(v.upper.is_laminar, vec![true, true]);
    assert!((v.wake_upper_fraction - 0.75).abs() < 1e-12);
    assert_eq!(v.wake_geometry_x, vec![1.5, 2.0, 2.5]);
    let v = get_bl_visualization_faithful(&coords[..2], 1.0, 1e6, 0.0, 9.0, 50, &solver(), &e);
    assert_eq!(v.wake_upper_fraction, 0.5);
    assert!(v.error.is_some());
}

#[test]
fn viscous_flow_is_drawn_from_its_field() {
    let coords = [1.0, 0.0, 0.0, 0.0, 1.0, -1.0];
    let e = elementary();
    let s = solver();
    let lines = |f: &FaithfulFlowField<f64>, o: StreamlineOptions<f64>| {
        vec![vec![(f.psi_0, o.seed_count as f64)]]
    };
    let r = compute_streamlines_faithful(&coords, 2.0, 1e6, 0.0, 9.0, 50, 5, &BOUNDS, &s, &lines, &e);
    assert_eq!(r.streamlines, vec![vec![[0.02, 5.0]]]);
    let r = compute_streamlines_faithful(&coords, 2.0, 1e6, 0.0, 9.0, 50, 5, &[], &s, &lines, &e);
    assert!(r.error.unwrap().starts_with("bounds must"));
    let line = |_: &FaithfulFlowField<f64>, o: StreamlineOptions<f64>| {
        if o.seed_x > 0.0 {
            None
        } else {
            Some(vec![(o.seed_count as f64, 0.0)])
        }
    };
    let r = compute_dividing_streamline_faithful(&coords, 2.0, 1e6, 0.0, 9.0, 50, &BOUNDS, &s, &line, &e);
    assert_eq!(r.streamline, vec![[33.0, 0.0]]);
    let right = [1.0, 2.0, -1.0, 1.0];
    let r = compute_dividing_streamline_faithful(&coords, 2.0, 1e6, 0.0, 9.0, 50, &right, &s, &line, &e);
    assert_eq!(r.error.as_deref(), Some("Unable to bracket dividing streamline"));
    let sample = |f: &FaithfulFlowField<f64>, o: GridOptions<f64>| {
        vec![f64::NAN, o.nx as f64, f.v_inf]
    };
    let g = compute_psi_grid_faithful(
        &coords, 2.0, 1e6, 0.0, 9.0, 50, &BOUNDS, &[7, 8], &s, &sample, &e,
    );
    assert!(g.grid[0].is_nan());
    assert_eq!(g.grid[1..], [7.0, 1.0]);
    assert_eq!((g.psi_min, g.psi_max, g.psi_0), (1.0, 7.0, 0.02));
    let g = compute_psi_grid_faithful(
        &coords, 2.0, 1e6, 0.0, 9.0, 50, &BOUNDS, &[7], &s, &sample, &e,
    );
    assert!(g.error.unwrap().starts_with("resolution must"));
}

#[test]
fn smoke_drifts_in_the_flow_that_was_set_last() {
    let coords = [1.0, 0.0, 0.0, 0.0, 1.0, -1.0];
    let e = elementary();
    let mut smoke: WasmSmokeSystem<f64> = WasmSmokeSystem::new();
    assert_eq!((smoke.get_v_inf(), smoke.get_psi_0()), (1.0, 0.0));
    assert!(!smoke.set_flow(&coords[..3], 5.0, &make, &flow));
    assert!(smoke.coords.is_empty());
    assert!(smoke.set_flow(&coords, 180.0 - 135.0, &make, &flow));
    assert_eq!((smoke.coords.len(), smoke.get_psi_0()), (3, 0.125));
    assert!(smoke.current().sources.is_none());
    assert!(smoke.set_flow(&coords, 60.0, &make, &flow));
    assert_eq!(smoke.gamma, vec![0.5; 3]);
    let mut bad = coords;
    bad[0] = -1.0;
    assert!(!smoke.set_flow(&bad, 5.0, &make, &flow));
    assert_eq!(smoke.coords[0].x, -1.0);
    assert!(smoke.set_faithful_flow(&coords, 2.0, 1e6, 0.0, 9.0, 50, &solver(), &e));
    assert_eq!(smoke.get_psi_0(), 0.02);
    let now = smoke.current();
    assert_eq!(now.gamma, &vec![0.5, -2.0]);
    assert!(now.sources.is_some());
    assert!(!smoke.set_faithful_flow(&coords, 2.0, -1.0, 0.0, 9.0, 50, &solver(), &e));
    assert!(smoke.faithful_field.is_some());
}

#[test]
fn the_stream_is_kept_between_its_limits() {
    let mut smoke: WasmSmokeSystem<f64> = WasmSmokeSystem::new();
    smoke.set_v_inf(1.005);
    assert_eq!(smoke.get_v_inf(), 1.005);
    smoke.set_v_inf(50.0);
    assert_eq!(smoke.get_v_inf(), 10.0);
    smoke.set_v_inf(0.0);
    assert_eq!(smoke.get_v_inf(), 0.1);
}

#[test]
fn a_design_task_is_handed_on_whole() {
    let coords = [1.0, 0.0, 0.5, 0.06, 0.0, 0.0, 0.5, -0.06, 1.0, 0.0];
    let run = |kind: &str, ux: &[f64], uv: &[f64], lx: &[f64], lv: &[f64]| {
        inverse_design_qdes_impl(
            &coords,
            3.0,
            1e6,
            0.1,
            9.0,
            kind,
            ux,
            uv,
            lx,
            lv,
            None,
            None,
            &|q: &QdesRequest<f64>| Ok(solution_of(q)),
        )
    };
    let r = run("Cp", &[0.1, 0.2], &[1.0, 2.0], &[], &[]);
    assert!(r.success);
    assert_eq!(r.input_coords, coords);
    assert_eq!(r.paneled_coords, vec![0.5, 0.25]);
    assert_eq!((r.iterations, r.rms_error, r.max_error), (6, 0.6, 100.0));
    assert_eq!(r.target_kind, "cp");
    assert_eq!((r.target_upper_x, r.target_upper_values), (vec![0.1, 0.2], vec![1.0, 2.0]));
    assert!(r.target_lower_x.is_empty());
    assert_eq!((r.achieved_upper_x, r.achieved_lower_x), (vec![0.1], vec![]));
    assert_eq!(r.history[0].geometry_delta_norm, 0.3);
    assert_eq!(run("speed", &[], &[], &[0.1], &[1.0]).target_kind, "velocity");
    let fault = |r: rustfoil::airfoil::inverse::InverseDesignResult<f64>| r.error.unwrap();
    assert_eq!(
        fault(run("cp", &[0.1], &[], &[], &[])),
        "upper_x and upper_values must have the same length"
    );
    assert_eq!(
        fault(run("cp", &[0.1], &[0.2], &[0.1], &[])),
        "lower_x and lower_values must have the same length"
    );
    let failed = inverse_design_qdes_impl(
        &coords,
        3.0,
        1e6,
        0.1,
        9.0,
        "cp",
        &[0.1],
        &[1.0],
        &[],
        &[],
        Some(2),
        Some(0.5),
        &|_: &QdesRequest<f64>| Err("no luck".to_string()),
    );
    assert_eq!(failed.error.as_deref(), Some("Inverse design failed: no luck"));
    assert_eq!(failed.target_kind, "");
    for name in ["cp", "Cp", "CP", "pressure"] {
        assert_eq!(target_kind_from_name(name), QdesTargetKind::PressureCoefficient);
    }
    assert_eq!(target_kind_from_name("cP"), QdesTargetKind::EdgeVelocity);
}

#[test]
fn a_circle_has_enough_points() {
    let coords = [1.0, 0.0, 0.5, 0.06, 0.0, 0.0, 0.5, -0.06];
    let solve = |q: &MdesRequest<f64>| MdesDesignResult {
        x: q.x.clone(),
        y: q.y.clone(),
        qspec_x: vec![q.nc as f64, q.alpha_deg, q.filter_strength],
        qspec_values: q.target_q.clone().unwrap_or_default(),
        cl: 0.0,
        cm: 0.0,
        success: q.symmetric,
        error: None,
    };
    let r = full_inverse_design_mdes_impl(&coords, 2.0, true, 0.5, &[7.0], 32, &solve);
    assert_eq!(r.x, vec![1.0, 0.5, 0.0, 0.5]);
    assert_eq!(r.y, vec![0.0, 0.06, 0.0, -0.06]);
    assert_eq!(r.qspec_x, vec![129.0, 2.0, 0.5]);
    assert_eq!(r.qspec_values, vec![7.0]);
    assert!(r.success);
    let r = full_inverse_design_mdes_impl(&coords, 2.0, true, 0.5, &[], 33, &solve);
    assert_eq!(r.qspec_x[0], 33.0);
    let r = full_inverse_design_mdes_impl(&coords[..6], 2.0, true, 0.5, &[], 33, &solve);
    assert_eq!(r.error.as_deref(), Some("Invalid coordinates: need at least 4 points"));
}

#[test]
fn each_angle_of_a_batch_stands_alone() {
    let solve = |scale: &f64, alpha: f64| {
        if alpha > 10.0 {
            Err("stalled".to_string())
        } else {
            Ok(OperPoint {
                alpha_deg: alpha,
                cl: scale * alpha,
                cd: 0.01,
                cm: 0.02,
                converged: true,
                iterations: 4,
                residual: 1e-6,
                x_tr_upper: 0.2,
                x_tr_lower: 0.9,
                cd_friction: 0.006,
                cd_pressure: 0.004,
                reynolds_eff: 2e6,
            })
        }
    };
    let good = solve_one_faithful(&0.1, 5.0, 1e6, &solve);
    assert_eq!((good.cl, good.reynolds_eff, good.success), (0.5, 2e6, true));
    let bad = solve_one_faithful(&0.1, 15.0, 1e6, &solve);
    assert_eq!((bad.alpha_deg, bad.cl, bad.reynolds_eff), (15.0, 0.0, 1e6));
    assert_eq!((bad.x_tr_upper, bad.error.as_deref()), (1.0, Some("stalled")));
    let all = failed_results(&[1.0, 2.0], 1e6, "Invalid coordinates");
    assert_eq!(all.len(), 2);
    assert_eq!((all[1].alpha_deg, all[1].error.as_deref()), (2.0, Some("Invalid coordinates")));
    let p = solve_one_inviscid(&points_from_flat(&diamond_coords()), 5.0, &flow);
    assert_eq!((p.cl, p.cp.len(), p.success), (0.5, 8, true));
    let p = solve_one_inviscid(&points_from_flat(&diamond_coords()), 50.0, &flow);
    assert_eq!(p.error.as_deref(), Some("Solver error: singular"));
}
