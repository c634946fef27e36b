//! A piecewise cubic Bezier curve engine over exact integer coordinates,
//! together with the control-message loop of the audio helper thread.
//!
//! Coordinates are plain `i64` units; curve parameters are fixed-point
//! values scaled by `curve::PARAM_ONE`. All evaluation results are stated
//! exactly, as quotients of integer polynomials.

pub mod audio;
pub mod curve;
pub mod math;
pub mod point;
