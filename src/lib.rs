//! Shape abstraction core of a 2D collision-geometry library.
//!
//! Geometry lives on the integer lattice: coordinates are `i64` values and
//! rigid motions are the orientation-preserving isometries of the lattice
//! (quarter-turn rotations followed by integer translations), so every bound
//! computed here is exact.
pub mod math;
pub mod bounding_volume;
pub mod shape_type;
pub mod primitives;
pub mod composites;
pub mod shape;
pub mod compound;
pub mod decomposition;
pub mod outline;
