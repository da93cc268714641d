//! A command-recording and replay core for a small plotting interface.
//!
//! Plot calls (`plot`, `title`, `xlim`, `ylim`) are recorded as an ordered
//! command log rather than executed immediately; a drain operation hands the
//! log to a renderer and resets it, and an interpreter folds the ordered
//! command sequence into chart state and a plan of drawing operations.
//!
//! Axis bounds and coordinates are 32-bit floating-point values to the
//! caller; the core stores and moves them as their IEEE 754 bit patterns
//! (`u32`) and never computes on them, so callers convert once at the
//! boundary with `f32::to_bits` / `f32::from_bits`.

pub mod command;
pub mod interpreter;
pub mod recorder;
