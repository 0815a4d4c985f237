//! The Fibonacci AIR: column layout, trace generation and constraints.

pub mod air;
pub mod columns;
pub mod trace;
