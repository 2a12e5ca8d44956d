//! The viscous solution: it iterates the boundary layers of an airfoil with the outer flow.
pub mod panel;
pub mod operating;
pub mod control;
pub mod single;
pub mod state;
pub mod two_surfaces;
