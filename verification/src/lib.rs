//! A small diagnostic library for reading and writing raw link-layer
//! frames on a named network interface: hex payload decoding, the
//! capture control loop with its count and deadline bounds, frame
//! rendering, and the interface listing report.
pub mod capture;
pub mod hexcodec;
pub mod listing;
pub mod render;
