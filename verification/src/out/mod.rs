//! Output helpers: parsing of user-provided format templates.

pub mod custom;

pub use self::custom::{parse_index, CustomOutputError, FormatArgs};
