//! Arithmetization of the Fibonacci recurrence over the Baby Bear field:
//! a two-column execution trace and the constraints that bind it to its
//! public values.

pub mod fib_air;
pub mod field;
pub mod matrix;
