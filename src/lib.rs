//! Escape-time fractal viewing in fixed-point arithmetic.
//!
//! Points of the complex plane are held as signed integers scaled by
//! [`fixed::ONE`]. The crate holds the view state and its zoom rules
//! ([`view`]), the escape-time kernel and colour map ([`escape`]), and the
//! event-driven controller that turns window input into view changes and
//! redraw requests ([`controller`]).

mod arith;
pub mod fixed;
pub mod view;
pub mod escape;
pub mod controller;
