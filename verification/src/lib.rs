pub mod airfoil;
pub mod callable;
pub mod closure;
pub mod elementary;
pub mod exact;
pub mod global_newton;
pub mod march;
pub mod number;
pub mod station;
pub mod viscal;
