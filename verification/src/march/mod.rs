//! The march of a boundary layer from the stagnation point downstream.
//!
//! The direct march keeps the edge velocity and solves each station by Newton iteration;
//! where the shape parameter would run away it turns to the inverse form, that prescribes
//! the shape parameter instead. The mixed march lets the edge velocity answer to it.
pub mod config;
pub mod laws;
pub mod linear;
pub mod station;
pub mod surface;
pub mod mixed;
pub mod coupled;
