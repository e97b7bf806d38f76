//! Fixed limits and default settings of the mixer.
use vstd::prelude::*;

verus! {

/// Maximum number of channels the engine supports.
pub const AUTOMIX_MAX_CHANNELS: usize = 32;

/// Maximum block size in samples for a single processing call.
pub const AUTOMIX_MAX_BLOCK_SIZE: usize = 4096;

/// Number of slots of a sample window: 100 ms at 192 kHz.
pub const RING_BUFFER_MAX_CAPACITY: usize = 19200;

/// Longest level-detection window in milliseconds.
pub const MAX_RMS_WINDOW_MS: u64 = 100;

/// Highest sample rate in hertz at which the longest window fits the ring.
pub const MAX_SAMPLE_RATE: u64 = 192000;

/// Default last-microphone hold time in milliseconds.
pub const DEFAULT_HOLD_TIME_MS: u64 = 500;

/// Longest hold time in milliseconds.
pub const MAX_HOLD_TIME_MS: u64 = 5000;

} // verus!
