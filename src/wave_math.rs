//! Stateless signal generators in fixed-point arithmetic.
//!
//! Time is counted in samples at a given sample rate, frequencies in units of `1 / FREQ_ONE`
//! Hz. A waveform reads where `time` falls within the current period as the phase
//! `(time * freq) % (rate * FREQ_ONE)`, out of a full period of `rate * FREQ_ONE`.
use vstd::prelude::*;

use crate::voice_pool::MAX_NOTE;
use vstd::arithmetic::div_mod::{lemma_div_is_ordered, lemma_div_multiples_vanish};

use crate::PARAM_ONE;

verus! {

/// Fixed-point unit of a frequency: `FREQ_ONE` stands for 1 Hz.
pub const FREQ_ONE: u64 = 65536;

/// Frequency of A4, MIDI note 69, in Hz.
pub const A4_FREQ: u64 = 440;

/// MIDI note number of A4.
pub const A4_PITCH: u8 = 69;

/// Full scale of a one-cycle reference waveform.
pub const SAMPLE_ONE: i32 = 32768;

/// Frequency, in units of `1 / FREQ_ONE` Hz, of the notes 0 to 11 of the lowest MIDI octave
/// in equal temperament with A4 at `A4_FREQ`; note 9 is A4 five octaves down.
pub open spec fn semitone_base(k: int) -> nat {
    if k == 0 {
        535809
    } else if k == 1 {
        567670
    } else if k == 2 {
        601425
    } else if k == 3 {
        637188
    } else if k == 4 {
        675077
    } else if k == 5 {
        715219
    } else if k == 6 {
        757749
    } else if k == 7 {
        802807
    } else if k == 8 {
        850544
    } else if k == 9 {
        901120
    } else if k == 10 {
        954703
    } else {
        1011473
    }
}

/// `2^k`.
pub open spec fn octave_factor(k: nat) -> nat
    decreases k,
{
    if k == 0 {
        1
    } else {
        2 * octave_factor((k - 1) as nat)
    }
}

/// Frequency of a MIDI note, in units of `1 / FREQ_ONE` Hz: its semitone in the lowest octave,
/// doubled once per octave above it.
pub open spec fn pitch_freq(pitch: u8) -> nat {
    semitone_base(pitch as int % 12) * octave_factor((pitch / 12) as nat)
}

fn semitone_base_of(k: u8) -> (r: u64)
    requires
        k < 12,
    ensures
        r == semitone_base(k as int),
{
    match k {
        0 => 535809,
        1 => 567670,
        2 => 601425,
        3 => 637188,
        4 => 675077,
        5 => 715219,
        6 => 757749,
        7 => 802807,
        8 => 850544,
        9 => 901120,
        10 => 954703,
        _ => 1011473,
    }
}

/// Frequency of a MIDI note, in units of `1 / FREQ_ONE` Hz, in equal temperament with A4 at
/// 440 Hz: each octave up doubles it.
pub fn midi_pitch_to_freq(pitch: u8) -> (r: u64)
    requires
        pitch <= MAX_NOTE,
    ensures
        r == pitch_freq(pitch),
        0 < r < 1073741824,
        pitch == A4_PITCH ==> r == A4_FREQ * FREQ_ONE,
        pitch >= 12 ==> r == 2 * pitch_freq((pitch - 12) as u8),
{
    let octave: u8 = pitch / 12;
    let mut r: u64 = semitone_base_of(pitch % 12);
    let mut j: u8 = 0;
    while j < octave
        invariant
            octave == pitch / 12,
            octave <= 10,
            j <= octave,
            r == semitone_base(pitch as int % 12) * octave_factor(j as nat),
            semitone_base(pitch as int % 12) <= 1011473,
        decreases octave - j,
    {
        proof {
            lemma_octave_factor_bound(j as nat);
            assert(semitone_base(pitch as int % 12) * octave_factor(j as nat) <= 1011473 * 1024)
                by (nonlinear_arith)
                requires
                    semitone_base(pitch as int % 12) <= 1011473,
                    octave_factor(j as nat) <= 1024,
            ;
        }
        r = r * 2;
        proof {
            assert(semitone_base(pitch as int % 12) * octave_factor((j + 1) as nat) == 2 * (
            semitone_base(pitch as int % 12) * octave_factor(j as nat))) by (nonlinear_arith)
                requires
                    octave_factor((j + 1) as nat) == 2 * octave_factor(j as nat),
            ;
        }
        j = j + 1;
    }
    proof {
        lemma_octave_factor_bound(octave as nat);
        assert(semitone_base(pitch as int % 12) * octave_factor(octave as nat) <= 1011473 * 1024)
            by (nonlinear_arith)
            requires
                semitone_base(pitch as int % 12) <= 1011473,
                octave_factor(octave as nat) <= 1024,
        ;
        assert(semitone_base(pitch as int % 12) * octave_factor(octave as nat) > 0)
            by (nonlinear_arith)
            requires
                semitone_base(pitch as int % 12) > 0,
                octave_factor(octave as nat) > 0,
        ;
        if pitch >= 12 {
            let lower = (pitch - 12) as u8;
            assert(lower as int % 12 == pitch as int % 12);
            assert(octave_factor(octave as nat) == 2 * octave_factor((lower / 12) as nat));
            assert(semitone_base(pitch as int % 12) * octave_factor(octave as nat) == 2 * (
            semitone_base(pitch as int % 12) * octave_factor((lower / 12) as nat)))
                by (nonlinear_arith)
                requires
                    octave_factor(octave as nat) == 2 * octave_factor((lower / 12) as nat),
            ;
        }
        if pitch == A4_PITCH {
            reveal_with_fuel(octave_factor, 6);
            assert(octave_factor(5) == 32);
        }
    }
    r
}

proof fn lemma_octave_factor_bound(k: nat)
    requires
        k <= 10,
    ensures
        1 <= octave_factor(k) <= 1024,
    decreases k,
{
    if k > 0 {
        lemma_octave_factor_bound((k - 1) as nat);
        reveal_with_fuel(octave_factor, 11);
        assert(octave_factor(10) == 1024);
        lemma_octave_factor_monotone((k - 1) as nat, 9);
    }
}

proof fn lemma_octave_factor_monotone(a: nat, b: nat)
    requires
        a <= b,
    ensures
        octave_factor(a) <= octave_factor(b),
    decreases b,
{
    if a < b {
        lemma_octave_factor_monotone(a, (b - 1) as nat);
    }
}

/// Number of phase units in one period at sample rate `rate`.
pub open spec fn period_units(rate: u32) -> int {
    (rate as int) * (FREQ_ONE as int)
}

/// Where sample `time` falls within the period of a wave of frequency `freq`, out of
/// `period_units(rate)`.
pub open spec fn cycle_phase(time: u64, rate: u32, freq: u64) -> int {
    ((time as int) * (freq as int)) % period_units(rate)
}

/// `n * amp / d`, rounded toward zero, with `n` negative for the lower half of a wave.
pub open spec fn scaled(n: int, amp: u32, d: int) -> int {
    if n >= 0 {
        (n * amp) / d
    } else {
        -((-n * amp) / d)
    }
}

proof fn lemma_scaled_bound(n: int, amp: u32, d: int)
    requires
        0 < d,
        -d <= n <= d,
    ensures
        -(amp as int) <= scaled(n, amp, d) <= amp,
{
    let m = if n >= 0 { n } else { -n };
    assert(0 <= m * amp <= d * amp) by (nonlinear_arith)
        requires
            0 <= m <= d,
    ;
    lemma_div_is_ordered(m * amp, d * amp, d);
    lemma_div_multiples_vanish(amp as int, d);
    assert(0 <= (m * amp) / d) by (nonlinear_arith)
        requires
            0 <= m * amp,
            0 < d,
    ;
}

proof fn lemma_mul_le(a: int, b: int, x: int, y: int)
    requires
        0 <= a <= x,
        0 <= b <= y,
    ensures
        0 <= a * b <= x * y,
{
    assert(0 <= a * b <= x * y) by (nonlinear_arith)
        requires
            0 <= a <= x,
            0 <= b <= y,
    ;
}

fn phase_of(time: u64, rate: u32, freq: u64) -> (r: u128)
    requires
        rate > 0,
    ensures
        r == cycle_phase(time, rate, freq),
        r < period_units(rate),
{
    proof {
        assert((time as int) * (freq as int) <= u64::MAX as int * u64::MAX as int)
            by (nonlinear_arith);
        assert(u64::MAX as int * u64::MAX as int <= u128::MAX) by (nonlinear_arith);
        lemma_mul_le(rate as int, FREQ_ONE as int, u32::MAX as int, FREQ_ONE as int);
        assert((rate as int) * (FREQ_ONE as int) > 0) by (nonlinear_arith)
            requires
                rate > 0,
        ;
    }
    (time as u128 * freq as u128) % (rate as u128 * FREQ_ONE as u128)
}

/// `n * amp / d` for `0 <= n <= 2 * d`, rounded toward zero.
fn scale_unsigned(n: u128, amp: u32, d: u128) -> (r: i64)
    requires
        0 < d < 0x1_0000_0000_0000,
        n <= d,
    ensures
        r == (n as int * amp as int) / (d as int),
        0 <= r <= amp,
{
    proof {
        lemma_scaled_bound(n as int, amp, d as int);
        assert(n as int * amp as int <= 0x1_0000_0000_0000 * 0x1_0000_0000) by (nonlinear_arith)
            requires
                n < 0x1_0000_0000_0000,
                amp < 0x1_0000_0000,
        ;
    }
    (n * amp as u128 / d) as i64
}

pub open spec fn square_spec(time: u64, rate: u32, freq: u64, amp: u32) -> int {
    if 2 * cycle_phase(time, rate, freq) < period_units(rate) {
        amp as int
    } else {
        -(amp as int)
    }
}

/// Square wave: `amp` over the first half of each period, `-amp` over the second.
pub fn generate_square_wave(time: u64, rate: u32, base_freq: u64, amp: u32) -> (r: i64)
    requires
        rate > 0,
    ensures
        r == square_spec(time, rate, base_freq, amp),
{
    let ph = phase_of(time, rate, base_freq);
    if 2 * ph < rate as u128 * FREQ_ONE as u128 {
        amp as i64
    } else {
        -(amp as i64)
    }
}

/// Whether the phase lies in the first `width / PARAM_ONE` of the period.
pub open spec fn before_width(time: u64, rate: u32, freq: u64, width: u32) -> bool {
    cycle_phase(time, rate, freq) * (PARAM_ONE as int) < (width as int) * period_units(rate)
}

pub open spec fn pulse_spec(time: u64, rate: u32, freq: u64, width: u32, amp: u32) -> int {
    if before_width(time, rate, freq, width) {
        amp as int
    } else {
        -(amp as int)
    }
}

/// Pulse wave: `amp` over the first `pulse_width / PARAM_ONE` of each period, `-amp` over the
/// rest.
pub fn generate_pulse_wave(time: u64, rate: u32, base_freq: u64, pulse_width: u32, amp: u32) -> (r:
    i64)
    requires
        rate > 0,
    ensures
        r == pulse_spec(time, rate, base_freq, pulse_width, amp),
{
    let ph = phase_of(time, rate, base_freq);
    proof {
        lemma_mul_le(rate as int, FREQ_ONE as int, u32::MAX as int, FREQ_ONE as int);
    }
    let d = rate as u128 * FREQ_ONE as u128;
    proof {
        lemma_mul_le(pulse_width as int, d as int, u32::MAX as int, u32::MAX as int * FREQ_ONE as int);
    }
    if ph * (PARAM_ONE as u128) < (pulse_width as u128) * d {
        amp as i64
    } else {
        -(amp as i64)
    }
}

pub open spec fn triangle_spec(time: u64, rate: u32, freq: u64, amp: u32) -> int {
    let ph = cycle_phase(time, rate, freq);
    let d = period_units(rate);
    if 2 * ph < d {
        (2 * ph * amp) / d
    } else {
        (2 * (d - ph) * amp) / d
    }
}

/// Triangle wave: rises from 0 to `amp` over the first half of each period and falls back over
/// the second.
pub fn generate_triangle_wave(time: u64, rate: u32, base_freq: u64, amp: u32) -> (r: i64)
    requires
        rate > 0,
    ensures
        r == triangle_spec(time, rate, base_freq, amp),
        0 <= r <= amp,
{
    let ph = phase_of(time, rate, base_freq);
    let d = rate as u128 * FREQ_ONE as u128;
    if 2 * ph < d {
        scale_unsigned(2 * ph, amp, d)
    } else {
        scale_unsigned(2 * (d - ph), amp, d)
    }
}

pub open spec fn sawtooth_spec(time: u64, rate: u32, freq: u64, width: u32, amp: u32) -> int {
    let ph = cycle_phase(time, rate, freq);
    if before_width(time, rate, freq, width) {
        0
    } else {
        scaled(2 * ph - period_units(rate), amp, period_units(rate))
    }
}

/// Sawtooth wave: silent over the first `sawtooth_width / PARAM_ONE` of each period, then the
/// ramp from `-amp` at the start of the period to `amp` at its end.
pub fn generate_sawtooth_wave(
    time: u64,
    rate: u32,
    base_freq: u64,
    sawtooth_width: u32,
    amp: u32,
) -> (r: i64)
    requires
        rate > 0,
    ensures
        r == sawtooth_spec(time, rate, base_freq, sawtooth_width, amp),
        -(amp as int) <= r <= amp,
{
    let ph = phase_of(time, rate, base_freq);
    proof {
        lemma_mul_le(rate as int, FREQ_ONE as int, u32::MAX as int, FREQ_ONE as int);
    }
    let d = rate as u128 * FREQ_ONE as u128;
    proof {
        lemma_mul_le(sawtooth_width as int, d as int, u32::MAX as int, u32::MAX as int * FREQ_ONE as int);
    }
    if ph * (PARAM_ONE as u128) < (sawtooth_width as u128) * d {
        0
    } else if 2 * ph >= d {
        scale_unsigned(2 * ph - d, amp, d)
    } else {
        -scale_unsigned(d - 2 * ph, amp, d)
    }
}

/// A low-frequency oscillator sample of the given shape: 0 is the sine, whose sample
/// `sine_sample` the caller computes, 1 the square, 2 the triangle, 3 the sawtooth without a
/// silent part; any other shape is silent.
pub open spec fn lfo_spec(
    shape: u8,
    time: u64,
    rate: u32,
    base_freq: u64,
    amp: u32,
    sine_sample: i64,
) -> int {
    if shape == 0 {
        sine_sample as int
    } else if shape == 1 {
        square_spec(time, rate, base_freq, amp)
    } else if shape == 2 {
        triangle_spec(time, rate, base_freq, amp)
    } else if shape == 3 {
        sawtooth_spec(time, rate, base_freq, 0, amp)
    } else {
        0
    }
}

/// One sample of a low-frequency oscillator (see `lfo_spec`).
pub fn lfo(shape: u8, time: u64, rate: u32, base_freq: u64, amp: u32, sine_sample: i64) -> (r:
    i64)
    requires
        rate > 0,
    ensures
        r == lfo_spec(shape, time, rate, base_freq, amp, sine_sample),
{
    match shape {
        0 => sine_sample,
        1 => generate_square_wave(time, rate, base_freq, amp),
        2 => generate_triangle_wave(time, rate, base_freq, amp),
        3 => generate_sawtooth_wave(time, rate, base_freq, 0, amp),
        _ => 0,
    }
}

/// Samples by which a phase shift of `fraction / PARAM_ONE` of a period moves the time of a
/// wave of frequency `freq`, rounded down.
pub open spec fn phase_shift_samples(rate: u32, freq: u64, fraction: u32) -> int {
    ((fraction as int) * (FREQ_ONE as int) * (rate as int)) / ((PARAM_ONE as int) * (freq as int))
}

/// The time, in samples, shifted later by `fraction / PARAM_ONE` of a period of `base_freq`.
pub fn phase_shifted_time(time: u64, rate: u32, base_freq: u64, fraction: u32) -> (r: u64)
    requires
        base_freq > 0,
        time + phase_shift_samples(rate, base_freq, fraction) <= u64::MAX,
    ensures
        r == time + phase_shift_samples(rate, base_freq, fraction),
{
    proof {
        assert((fraction as int) * (FREQ_ONE as int) * (rate as int)
            < 0x1_0000_0000_0000_0000_0000) by (nonlinear_arith)
            requires
                fraction < 0x1_0000_0000,
                rate < 0x1_0000_0000,
        ;
        assert((PARAM_ONE as int) * (base_freq as int) < 0x1_0000_0000_0000_0000_0000)
            by (nonlinear_arith)
            requires
                base_freq < 0x1_0000_0000_0000_0000,
        ;
    }
    let shift = fraction as u128 * FREQ_ONE as u128 * rate as u128 / (PARAM_ONE as u128
        * base_freq as u128);
    time + shift as u64
}

/// `value * range / max_amp_abs`, rounded toward zero.
pub open spec fn scale_to_range_spec(value: i64, range: u32, max_amp_abs: u32) -> int {
    if value >= 0 {
        (value * range) / (max_amp_abs as int)
    } else {
        -((-value * range) / (max_amp_abs as int))
    }
}

/// Rescales a signal bounded by `max_amp_abs` to the bound `range`.
pub fn scale_to_range(value: i64, range: u32, max_amp_abs: u32) -> (r: i64)
    requires
        max_amp_abs > 0,
        -i64::MAX <= scale_to_range_spec(value, range, max_amp_abs) <= i64::MAX,
    ensures
        r == scale_to_range_spec(value, range, max_amp_abs),
{
    let magnitude: u128 = if value >= 0 {
        value as u128
    } else {
        (-(value as i128)) as u128
    };
    proof {
        assert(magnitude as int * range as int <= 0x1_0000_0000_0000_0000 * 0x1_0000_0000)
            by (nonlinear_arith)
            requires
                magnitude <= 0x1_0000_0000_0000_0000,
                range < 0x1_0000_0000,
        ;
    }
    let q = magnitude * range as u128 / max_amp_abs as u128;
    if value >= 0 {
        q as i64
    } else {
        -(q as i64)
    }
}

/// A normalized control value turned into one of `steps` discrete positions: rounded to the
/// nearest, halves away from zero, and saturated to `0..=255`.
pub open spec fn parameter_to_u8_spec(value: u32, steps: i32) -> u8 {
    let x = (value as int) * (steps as int);
    if x <= 0 {
        0
    } else {
        let q = (2 * x + PARAM_ONE) / (2 * PARAM_ONE as int);
        if q > 255 {
            255
        } else {
            q as u8
        }
    }
}

/// Turns a normalized control value into one of `steps` discrete positions.
pub fn parameter_to_u8(value: u32, steps: i32) -> (r: u8)
    ensures
        r == parameter_to_u8_spec(value, steps),
{
    if steps <= 0 || value == 0 {
        proof {
            assert((value as int) * (steps as int) <= 0) by (nonlinear_arith)
                requires
                    steps <= 0 || value == 0,
            ;
        }
        return 0;
    }
    proof {
        assert(0 < (value as int) * (steps as int) < 0x1_0000_0000 * 0x8000_0000)
            by (nonlinear_arith)
            requires
                0 < value < 0x1_0000_0000,
                0 < steps < 0x8000_0000,
        ;
    }
    let x: u128 = value as u128 * steps as u128;
    let q: u128 = (2 * x + PARAM_ONE as u128) / (2 * PARAM_ONE as u128);
    if q > 255 {
        255
    } else {
        q as u8
    }
}

/// A sample of the one-cycle reference square: -1 up to and including time zero, then 1, in
/// units of `SAMPLE_ONE`.
pub fn generate_one_cycle_square(t: i64) -> (r: i32)
    ensures
        r == (if t > 0 {
            SAMPLE_ONE as int
        } else {
            -SAMPLE_ONE
        }),
{
    if t > 0 {
        SAMPLE_ONE
    } else {
        -SAMPLE_ONE
    }
}

/// White noise from a uniformly drawn `sample`: `(sample / 2^32 - 1/2) * amp`, rounded toward
/// zero.
pub open spec fn white_noise_value(sample: u32, amp: u32) -> int {
    scaled(sample as int - 0x8000_0000, amp, 0x1_0000_0000)
}

/// Turns a uniformly drawn 32-bit `sample` into white noise of amplitude `amp / 2`.
pub fn white_noise_from(sample: u32, amp: u32) -> (r: i64)
    ensures
        r == white_noise_value(sample, amp),
        -(amp as int) <= 2 * r <= amp,
{
    proof {
        lemma_scaled_bound(sample as int - 0x8000_0000, amp, 0x1_0000_0000);
        lemma_half_noise_bound(sample, amp);
    }
    if sample >= 0x8000_0000 {
        ((sample - 0x8000_0000) as u64 * amp as u64 / 0x1_0000_0000) as i64
    } else {
        -(((0x8000_0000 - sample) as u64 * amp as u64 / 0x1_0000_0000) as i64)
    }
}

proof fn lemma_half_noise_bound(sample: u32, amp: u32)
    ensures
        -(amp as int) <= 2 * white_noise_value(sample, amp) <= amp,
{
    let c = sample as int - 0x8000_0000;
    let m = if c >= 0 { c } else { -c };
    assert(m <= 0x8000_0000);
    assert(0 <= m * amp <= 0x8000_0000 * amp) by (nonlinear_arith)
        requires
            0 <= m <= 0x8000_0000,
    ;
    lemma_div_is_ordered(m * amp, 0x8000_0000 * amp, 0x1_0000_0000);
    assert(2 * ((0x8000_0000 * amp) / 0x1_0000_0000) <= amp);
    assert(0 <= (m * amp) / 0x1_0000_0000);
}

/// Relies on `rand::rngs::StdRng`, a ChaCha generator that is built from a seed and draws
/// without touching the operating system.
#[verifier::external_type_specification]
#[verifier::external_body]
pub struct ExStdRng(rand::rngs::StdRng);

/// Relies on `rand::SeedableRng::seed_from_u64` for `StdRng`: expands the seed with PCG32 and
/// keys the generator with it. Nothing is stated of the generator made.
#[verifier::external_body]
fn seeded_rng(seed: u64) -> (r: rand::rngs::StdRng) {
    <rand::rngs::StdRng as rand::SeedableRng>::seed_from_u64(seed)
}

/// A source of uniformly drawn 32-bit values for white noise. It is seeded once, off the
/// audio thread, and drawing from it never fails. It keeps a ghost log of every value drawn.
pub struct NoiseSource {
    rng: rand::rngs::StdRng,
    draws: Ghost<Seq<u32>>,
}

impl NoiseSource {
    /// The values drawn from this source so far, oldest first.
    pub closed spec fn drawn(&self) -> Seq<u32> {
        self.draws@
    }

    /// A noise source started from `seed`, with nothing drawn yet.
    pub fn new(seed: u64) -> (r: NoiseSource)
        ensures
            r.drawn() == Seq::<u32>::empty(),
    {
        NoiseSource { rng: seeded_rng(seed), draws: Ghost(Seq::empty()) }
    }
}

/// Relies on `rand::RngCore::next_u32` for `StdRng`: the next output of the generator, which
/// the source's log records. Nothing is stated of the value drawn.
#[verifier::external_body]
fn next_draw(source: &mut NoiseSource) -> (r: u32)
    ensures
        final(source).draws@ == old(source).draws@.push(r),
{
    rand::RngCore::next_u32(&mut source.rng)
}

/// One sample of white noise of amplitude `amp / 2`: the noise of the next value drawn from
/// `source`.
pub fn generate_white_noise(source: &mut NoiseSource, amp: u32) -> (r: i64)
    ensures
        final(source).drawn().len() == old(source).drawn().len() + 1,
        final(source).drawn().drop_last() == old(source).drawn(),
        r == white_noise_value(final(source).drawn().last(), amp),
        -(amp as int) <= 2 * r <= amp,
{
    let sample: u32 = next_draw(source);
    proof {
        assert(source.draws@.drop_last() =~= old(source).draws@);
    }
    white_noise_from(sample, amp)
}

} // verus!
