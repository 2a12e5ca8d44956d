//! Airfoils: their outlines, how they are made and changed, and what is shown of them.
pub mod analysis;
pub mod batch;
pub mod dat;
pub mod design;
pub mod faithful;
pub mod flap;
pub mod interp;
pub mod inverse;
pub mod inviscid;
pub mod layer;
pub mod morph;
pub mod naca;
pub mod points;
pub mod report;
pub mod smoke;
pub mod spacing;
pub mod spline;
