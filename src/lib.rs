//! Plant-care tracking: a registry of plants, the operations that change it,
//! and the watering / fertilizing schedule derived from it.
//!
//! Calendar dates are day numbers (days from the common era, day 1 being
//! 0001-01-01), so that date arithmetic is plain integer arithmetic.
//! Plant identifiers are the 128-bit values of UUIDs.
pub mod error;
pub mod ids;
pub mod models;
pub mod ops;
pub mod registry;
pub mod schedule;
pub mod upload;
