//! Logical clocks.

pub mod dot_version_vector;
pub mod matrix_clock;
pub mod version_vector;
