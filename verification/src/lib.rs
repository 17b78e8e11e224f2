//! Multi-monitor selection-to-capture pipeline: normalizing a pair of global
//! screen points into a canonical rectangle, resolving which displays the
//! rectangle touches, converting global coordinates into each display's local
//! pixel space with clamping, and choosing the PNG profile for the captured
//! buffers.

pub mod capture;
pub mod display;
pub mod encode;
pub mod geometry;
