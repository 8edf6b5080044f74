//! Seek-the-cursor steering for a flock of planar agents, on fixed-point
//! integer coordinates.
pub mod vector;
pub mod steering;
pub mod flock;
pub mod mesh;
