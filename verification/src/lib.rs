//! Time-slot inventory tracking with verified reservation semantics.
//!
//! The library keeps, for a set of identifiable items, how many units of each
//! item are available during discrete time windows, and lets callers reserve,
//! release, or overwrite that availability. Mutations target one slot by an
//! exact `(item, start, end)` match; read queries return every slot contained
//! in a range. The batch path (`reserve_many`) is all-or-nothing: a failing
//! request leaves every slot untouched.

/// Core types: `InventoryItem`, `AvailabilitySlot`, and the spec-level slot model.
pub mod model;

/// Traits for defining storage/repository behavior.
pub mod repository;

/// In-memory implementation of the inventory system.
pub mod in_memory;

/// Strongly-typed errors (`InventoryError`).
pub mod error;

/// Range-validation helpers shared by all repository operations.
pub mod utils;

/// The laws the repository operations obey, stated and proved once.
pub mod laws;

/// Convenience re-exports of the repository traits.
pub mod service;
