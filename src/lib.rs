//! Forward dose model and inverse source localization over an integer 3D grid.
//!
//! Distances are exact: the model works with squared distances between lattice
//! points. The dose at a point is reported exactly, as terms: `K / d^2` for each
//! point source, with a medium constant `K`, and the inputs of the arctangent
//! law for each line source; solid sources have no dose law and are reported as
//! unsupported. Samples carry their dosage as a fixed-point integer
//! (`simulator::DOSE_SCALE` units per unit of dosage).
//!
//! Localization lets every sample vote for the cells whose distance to it
//! matches the radius at which a point source would deliver its dosage, within
//! a tolerance counted in thousandths of a unit.

pub mod geometry;
pub mod locate;
pub mod point;
pub mod sampling;
pub mod simulator;
