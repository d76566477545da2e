//! Algorithms around a running simulation: thermostats and other
//! controls, minimization bookkeeping, and the driver's pure decisions.

pub mod controls;
pub mod min;
pub mod simulations;

pub use self::min::{Minimization, Tolerance};
pub use self::simulations::{output_due, sanity_check};
pub use self::controls::{
    Alternator, BerendsenThermostat, Control, RemoveRotation, RemoveTranslation,
    RescaleThermostat, Thermostat,
};
