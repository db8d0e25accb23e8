//! Tempo-synchronised delay line: note divisions, their length in samples at
//! a given tempo and sample rate, and a circular buffer that delays a stream
//! of samples by that length.

pub mod delay;
pub mod delay_enums;

pub use delay::Delay;
pub use delay_enums::{delay_in_samples, max_delay_in_samples, DelayTime, DelayTiming, Ratio};
