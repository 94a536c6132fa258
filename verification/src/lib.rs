//! Core of a microphone-driven avatar: a fixed-size ring buffer of audio
//! samples with an RMS loudness query, a loudness threshold estimator with
//! release hysteresis, and the device-selection rules of the capture session.
//!
//! Audio samples and gains are held in fixed point: one unit is 1e-5 of full
//! scale, so a full-scale sample is 100000 units. The surrounding application
//! converts the driver's floating-point samples to units at the edge.

pub mod buffer;
pub mod devices;
pub mod level;
pub mod talking;
