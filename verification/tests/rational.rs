use rustfoil::airfoil::design::{gdes_scale, gdes_translate, set_te_gap_impl};
use rustfoil::airfoil::points::{point, Point};
use rustfoil::airfoil::spacing::spacing_to_distribution;
use rustfoil::global_newton::solve::solve_global_system;
use rustfoil::global_newton::system::GlobalNewtonSystem;
use rustfoil::march::linear::{gauss_4x4, invert_3x3_opt};
use std::ops::{Add, Div, Mul, Neg, Sub};

/// A rational number in lowest terms, or, over zero, no number.
#[derive(Clone, Copy, Debug, PartialEq)]
struct Ratio {
    n: i128,
    d: i128,
}

fn gcd(a: i128, b: i128) -> i128 {
    if b == 0 {
        a.abs()
    } else {
        gcd(b, a % b)
    }
}

fn ratio(n: i128, d: i128) -> Ratio {
    let g = gcd(n, d).max(1);
    let s = if d < 0 { -1 } else { 1 };
    Ratio { n: s * n / g, d: s * d / g }
}

impl From<u32> for Ratio {
    fn from(n: u32) -> Ratio {
        ratio(n as i128, 1)
    }
}

impl Add for Ratio {
    type Output = Ratio;

    fn add(self, o: Ratio) -> Ratio {
        ratio(self.n * o.d + o.n * self.d, self.d * o.d)
    }
}

impl Sub for Ratio {
    type Output = Ratio;

    fn sub(self, o: Ratio) -> Ratio {
        ratio(self.n * o.d - o.n * self.d, self.d * o.d)
    }
}

impl Mul for Ratio {
    type Output = Ratio;

    fn mul(self, o: Ratio) -> Ratio {
        ratio(self.n * o.n, self.d * o.d)
    }
}

impl Div for Ratio {
    type Output = Ratio;

    fn div(self, o: Ratio) -> Ratio {
        ratio(self.n * o.d, self.d * o.n)
    }
}

impl Neg for Ratio {
    type Output = Ratio;

    fn neg(self) -> Ratio {
        ratio(-self.n, self.d)
    }
}

impl PartialOrd for Ratio {
    fn partial_cmp(&self, o: &Ratio) -> Option<std::cmp::Ordering> {
        (self.n * o.d).partial_cmp(&(o.n * self.d))
    }
}

fn whole(n: i128) -> Ratio {
    ratio(n, 1)
}

#[test]
fn elimination_solves_its_system() {
    let a = [
        [whole(0), whole(2), whole(1), whole(-1)],
        [whole(3), whole(1), whole(4), whole(1)],
        [whole(5), whole(9), whole(2), whole(6)],
        [whole(5), whole(3), whole(5), whole(8)],
    ];
    let b = [whole(9), whole(7), whole(-9), whole(3)];
    let mut m = a;
    let mut x = b;
    gauss_4x4(&mut m, &mut x);
    for i in 0..4 {
        let mut sum = whole(0);
        for j in 0..4 {
            sum = sum + a[i][j] * x[j];
        }
        assert_eq!(sum, b[i]);
    }
}

#[test]
fn an_inverse_undoes_its_matrix() {
    let a = [
        [whole(2), whole(7), whole(1)],
        [whole(8), whole(2), whole(8)],
        [whole(1), whole(8), whole(2)],
    ];
    let b = invert_3x3_opt(&a).unwrap();
    for i in 0..3 {
        for j in 0..3 {
            let mut sum = whole(0);
            for k in 0..3 {
                sum = sum + a[i][k] * b[k][j];
            }
            assert_eq!(sum, if i == j { whole(1) } else { whole(0) });
        }
    }
}

#[test]
fn the_global_solution_solves_its_system() {
    let mut system: GlobalNewtonSystem<Ratio> = GlobalNewtonSystem::new(2, 3, 1, 1);
    system.airfoil_arc_length = whole(1);
    for iv in 1..=3 {
        let t = iv as i128;
        system.va[iv] = [
            [whole(3 + t), whole(1), whole(0)],
            [whole(1), whole(4), whole(0)],
            [whole(2), whole(-1), whole(0)],
        ];
        system.vb[iv] = [
            [whole(1), whole(t), whole(0)],
            [whole(-1), whole(2), whole(0)],
            [whole(1), whole(1), whole(0)],
        ];
        for l in 1..=3 {
            let d = if l == iv { 7 } else { 0 };
            system.vm[iv][l] = [whole(1), whole(-2), whole(3 + d)];
        }
        system.vdel[iv] = [whole(t), whole(2 - t), whole(1)];
    }
    system.vz = [
        [whole(1), whole(-1)],
        [whole(2), whole(1)],
        [whole(0), whole(1)],
    ];
    let x = solve_global_system(&mut system).state_deltas;
    for i in 1..=3 {
        for k in 0..3 {
            let mut sum = system.va[i][k][0] * x[i][0] + system.va[i][k][1] * x[i][1];
            if i > 1 {
                sum = sum + system.vb[i][k][0] * x[i - 1][0] + system.vb[i][k][1] * x[i - 1][1];
            }
            if i == 3 {
                sum = sum + system.vz[k][0] * x[1][0] + system.vz[k][1] * x[1][1];
            }
            for l in 1..=3 {
                sum = sum + system.vm[i][l][k] * x[l][2];
            }
            assert_eq!(sum, system.vdel[i][k]);
        }
    }
}

fn wedge() -> Vec<Point<Ratio>> {
    vec![
        point(whole(1), ratio(1, 50)),
        point(ratio(1, 2), ratio(1, 10)),
        point(whole(0), whole(0)),
        point(ratio(1, 2), ratio(-1, 10)),
        point(whole(1), ratio(-1, 100)),
    ]
}

#[test]
fn the_gap_is_the_one_that_was_asked_for() {
    let r = set_te_gap_impl(&wedge(), ratio(1, 20), ratio(1, 2));
    assert_eq!(r[0].y - r[4].y, ratio(1, 20));
    let closed = set_te_gap_impl(&wedge(), whole(0), ratio(4, 5));
    assert_eq!(closed[0].y, closed[4].y);
}

#[test]
fn moves_are_undone_without_rounding() {
    let coords = [whole(1), ratio(1, 3), whole(0), ratio(2, 7), ratio(1, 2), ratio(-1, 9)];
    let there = gdes_scale(&coords, ratio(3, 7), ratio(5, 2), ratio(1, 3), ratio(1, 4));
    let back = gdes_scale(&there.coords, ratio(7, 3), ratio(2, 5), ratio(1, 3), ratio(1, 4));
    assert_eq!(back.coords, coords.to_vec());
    let there = gdes_translate(&coords, ratio(1, 3), ratio(-2, 7));
    let back = gdes_translate(&there.coords, ratio(-1, 3), ratio(2, 7));
    assert_eq!(back.coords, coords.to_vec());
}

#[test]
fn nodes_are_in_order() {
    let density = [whole(3), whole(1), whole(0), whole(0), whole(2), whole(5)];
    let r = spacing_to_distribution(&density, 9);
    assert_eq!(r[0], whole(0));
    for i in 1..r.len() {
        assert!(r[i - 1] <= r[i]);
        assert!(r[i] <= whole(1));
    }
}

#[test]
fn nodes_share_the_integral() {
    let density = [whole(3), whole(1), whole(1), whole(5)];
    assert_eq!(
        spacing_to_distribution(&density, 5),
        vec![whole(0), ratio(1, 4), ratio(2, 3), ratio(5, 6), whole(1)]
    );
}
