//! The integer and structural core of a spectrum bar visualizer: cutting a
//! live sample stream into fixed-size analysis frames, validating the frame
//! layout, pairing band edges into contiguous bands, and resolving each band
//! to a non-empty range of spectrum bins.
use vstd::prelude::*;

pub mod accumulator;
pub mod bands;
pub mod bins;
pub mod config;

pub use accumulator::StreamAccumulator;
pub use bands::band_ranges;
pub use bins::{resolve_bin_range, resolve_bin_ranges};
pub use config::{is_power_of_two, ConfigError, FrameLayout};

verus! {

} // verus!
