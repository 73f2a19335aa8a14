//! Capture-and-analysis core of a live audio visualiser: stream format
//! negotiation, deinterleaving of raw capture buffers, multi-channel sample
//! batches, a fixed-length per-channel history and the rolling window fed to
//! the spectrum transform.
use vstd::prelude::*;

pub mod bridge;
pub mod capture;
pub mod deinterleave;
pub mod display;
pub mod format;
pub mod matrix;
pub mod ring;
pub mod spectrum;

verus! {

/// Number of samples in the rolling window handed to the spectrum transform.
pub const FFT_SIZE: usize = 8192;

} // verus!
