//! Symmetric encryption over the Learning-With-Errors problem, with
//! machine-checked contracts.
//!
//! Ring elements are integers modulo 2^32, carried as `i32` with wrapping
//! arithmetic. Messages are the eight integers in `[-4, 4)`, placed in the
//! top three bits of a ring element so that the low 29 bits absorb noise.

pub mod ring;
pub mod config;
pub mod utils;
pub mod model;
pub mod lwe;
pub mod laws;
