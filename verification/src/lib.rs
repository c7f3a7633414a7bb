//! A minimal real-time simulation engine for terminal-hosted 2D games.
//!
//! The engine advances a collection of independently behaving entities on a
//! fixed tick, detects overlaps between their axis-aligned bounding boxes,
//! applies movement, rotation and destruction with bounds-checked rollback,
//! and rasterizes their sprites into character-cell paint commands.

use vstd::prelude::*;

pub mod engine;
pub mod entity;
pub mod input;
pub mod render;
pub mod state;

pub use engine::{Engine, TickOutcome};

verus! {

/// Horizontal scale factor: movement and sprite extent along x are doubled to
/// compensate for non-square terminal character cells.
pub const X_SCALE: i32 = 2;

/// Vertical scale factor.
pub const Y_SCALE: i32 = 1;

/// Error returned from the game engine.
#[derive(Debug, Clone, PartialEq, Eq)]
pub enum GameError {
    /// An entity failed while being updated.
    UpdateError(String),
    /// An entity was placed or rendered out of the canvas bounds.
    OutOfBounds,
    /// A color specification could not be parsed.
    InvalidColor(ratatui::style::ParseColorError),
    /// A configuration argument was rejected.
    InvalidArg(String),
}

} // verus!
