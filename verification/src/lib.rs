//! A bounded-step driver for a large discrete-event traffic simulation.
//!
//! The library advances a simulation toward a requested point in simulated
//! time, one bounded step per host tick, so that the host event loop stays
//! responsive.  While advancing it watches for sustained congestion at
//! intersections, compares live trip completions against a recorded baseline
//! run, and lets the user cancel at any moment.  The host shell and the
//! simulation engine itself are collaborators: they hand plain values in and
//! carry actions out, while every decision made here is verified.

pub mod compare;
pub mod delay;
pub mod intersection;
pub mod jump;
pub mod screen;
pub mod step;

pub use intersection::IntersectionID;
