//! Core logic for a small crafting-and-inventory simulation.
//!
//! The crate provides three verified components:
//! - a grid canonicalizer that trims a crafting grid down to its minimal
//!   bounding sub-grid (`grid`),
//! - a recipe registry and crafting resolver that match a canonicalized
//!   grid against a fixed set of recipes (`registry`),
//! - a fixed-capacity inventory with stack-aware insertion (`inventory`).

pub mod grid;
pub mod inventory;
pub mod item;
pub mod registry;
