//! Session history and location information.

pub mod browser;
pub mod error;
pub mod hash;
pub mod listener;
pub mod location;
pub mod memory;
pub mod query;
pub mod utils;
