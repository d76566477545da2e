//! Basic fixed-point linear-algebra types.

pub mod matrix;
pub mod vectors;

pub use self::matrix::Matrix3;
pub use self::vectors::Vector3D;
