//! Procedural RGB pixel buffers: uniform random noise filled by four
//! concurrency strategies (sequential, row-block parallel, shared-lock
//! parallel, element parallel) and a deterministic Mandelbrot escape-time
//! renderer with gradient coloring.

pub mod buffer;
pub mod fractal;
pub mod noise;
pub mod partition;
mod rng;
pub mod shared;
