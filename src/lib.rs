//! The decisions of a Monte Carlo path tracer, verified: how the pixel grid is split
//! into units of work, which hit along a ray is the nearest and whether a light is
//! hidden, and how each step of a light path ends, with paths bounded in depth.
//! The floating-point geometry and radiance that these decisions steer live with
//! the program around the library.
pub mod hits;
pub mod integrator;
pub mod schedule;
