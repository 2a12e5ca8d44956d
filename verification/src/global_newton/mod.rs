//! The global Newton system that couples the boundary layers of both surfaces.
//!
//! The unknowns are a triple per station: the change of amplification or shear stress,
//! of momentum thickness and of mass defect. A row of the system holds the block of its
//! own station, the block of the station upstream, and a column for the mass defect of
//! every station, since the influence matrix carries a change of mass to every edge
//! velocity. One more block ties the upper trailing edge to the first wake station.
pub mod assemble;
pub mod coupling;
pub mod influence;
pub mod laws;
pub mod listing;
pub mod newton_state;
pub mod solve;
pub mod system;
pub mod update;
