//! Verified control core of a Dugan-style automatic microphone mixer.
//!
//! The crate holds every decision of the mixer that is made on switches,
//! flags, counts and bits: which channels take part in a block, which
//! microphones are open, the last-microphone hold, who shares the gain,
//! the count behind the attenuation for the number of open microphones,
//! the sliding sample window, the sanitizing of samples and the steps of
//! the engine. The arithmetic on levels and gains is the caller's; where a
//! contract speaks of it, it does so in exact arithmetic over the reals.
//!
//! Every function carries a contract that Verus proves, and no executable
//! function asks anything of its caller.
pub mod constants;
pub mod math_utils;
pub mod sample;
pub mod open_mics;
pub mod ring_buffer;
pub mod last_mic_hold;
pub mod gain_sharing;
pub mod nom;
pub mod channel;
pub mod engine;
