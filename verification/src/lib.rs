//! Camera-tracking overlay core: telemetry decoding, the tracking-state store,
//! a fixed-point camera model and a rasterizer for a packed video frame.
//!
//! All quantities that are fractional in nature (angles, scene coordinates,
//! pixel positions) are carried as fixed-point integers, so that every
//! operation of the library is exact and fully specified.

pub mod freed;
pub mod ndi;
pub mod ptz;
pub mod renderer;
