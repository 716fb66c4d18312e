//! The core of a live monitor for spectral power frames.
//!
//! A source sends one frame per sweep: a fixed number of packed 32-bit
//! samples, one per frequency channel. `frame` checks and unpacks a frame,
//! `snapshot` keeps the most recent one and turns it into plot points,
//! `axis` places a channel on the frequency axis, and `acquisition` holds the
//! decisions of the loop that reads frames from the transport.
//!
//! A sample travels through the library as the bit pattern of its IEEE-754
//! single-precision value; only the caller that draws turns it into a number.

pub mod acquisition;
pub mod axis;
pub mod frame;
pub mod snapshot;
