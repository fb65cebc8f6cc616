//! A painterly renderer: it repeatedly stamps randomly placed, shrinking
//! regular polygons of sampled color onto a blank canvas, switching to
//! outlined strokes once the strokes become small enough.
//!
//! All evolving quantities (stroke radius, alpha, scale factors, jitter)
//! are carried as fixed-point integers with sixteen fractional bits, so
//! that every step of the stroke loop has an exact arithmetic contract.

pub mod canvas;
pub mod color;
pub mod fixed;
pub mod geometry;
pub mod params;
pub mod resolution;
pub mod rng;
pub mod sketch;
pub mod trig;
