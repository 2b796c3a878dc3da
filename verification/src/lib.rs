//! Verified core of a Schwarzschild black-hole viewer: the input state
//! machine that drives the interactive viewer, and the frame buffer and
//! binary PPM encoding used by the headless reference renderer.

pub mod controls;
pub mod frame;
