//! A turtle-graphics interpreter.
//!
//! A script of turtle commands (move, turn, pen up/down, pivot along an arc,
//! save/restore of the pose, repetition and grouping) is executed against a
//! mutable turtle state, producing an ordered list of trails: path
//! recordings grouped by visual style, ready for a renderer that offers
//! move-to, line-to and arc primitives.
//!
//! All geometry is exact integer arithmetic: angles are measured in
//! millionths of a full turn, trigonometric values are fixed-point numbers
//! scaled by one million, and coordinates saturate at a fixed bound.

pub mod draw;
pub mod turtle;
pub mod units;
