//! Energy-evaluation core of a classical particle simulation engine.
//!
//! All physical quantities are held in a deterministic fixed-point
//! representation (see [`fx`]), so that the incremental energy cache can be
//! proved to agree exactly with a full recomputation: the floating-point
//! tolerance of a conventional implementation becomes an identity here.

pub mod fx;
pub mod math;
pub mod types;
pub mod utils;
pub mod out;
pub mod sim;
pub mod sys;
pub mod energy;
