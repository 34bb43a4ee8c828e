//! A polyphonic synthesizer engine in fixed-point arithmetic.
//!
//! The engine keeps a fixed pool of voices, each driven by an attack/decay/sustain/release
//! envelope, and renders them through a morphing wavetable. Control values arrive as
//! normalized fixed-point numbers (`PARAM_ONE` stands for 1.0) through `StateUpdate` messages
//! that the engine applies at the start of every audio block.
use vstd::prelude::*;

pub mod envelope;
pub mod voice_pool;
pub mod params;
pub mod wave_math;
pub mod wave_table;
pub mod dsp;
pub mod editor_state;

verus! {

/// Number of voice slots in the pool.
pub const NUM_VOICES: usize = 12;

/// Fixed-point unit of a normalized control value: `PARAM_ONE` stands for 1.0.
pub const PARAM_ONE: u32 = 65536;

/// Fixed-point unit of an envelope amplitude: `AMP_ONE` stands for full amplitude (2^48).
pub const AMP_ONE: u64 = 281474976710656;

/// Ratio between the amplitude unit and the control-value unit (2^32).
pub const PARAM_TO_AMP: u64 = 4294967296;

/// Highest sample rate, in Hz, at which an attack is proved to last exactly its nominal
/// number of samples (2^24). The engine runs at any positive rate; up to this one a segment of
/// `n` samples keeps `n * n` below `AMP_ONE`, which makes its rounded-up slope cross the range
/// in exactly `n` steps.
pub const EXACT_TIMING_RATE: u32 = 16777216;

/// Shortest envelope segment, in milliseconds, that keeps a segment from popping.
pub const MIN_ENV_TIME_MS: u32 = 1;

/// Longest attack, in seconds, reached at the top of the attack control.
pub const MAX_ENV_ATTACK_TIME: u64 = 1;

/// Longest decay, in seconds, reached at the top of the decay control.
pub const MAX_ENV_DECAY_TIME: u64 = 2;

/// Longest release, in seconds, reached at the top of the release control.
pub const MAX_ENV_RELEASE_TIME: u64 = 1;

} // verus!
