//! The morphing wavetable: frames that blend a reference sine into a reference square, read by
//! nearest-neighbour lookup.
use vstd::prelude::*;

use vstd::arithmetic::div_mod::{lemma_hoist_over_denominator, lemma_mod_multiples_vanish};

use crate::wave_math::{generate_one_cycle_square, period_units, FREQ_ONE, SAMPLE_ONE};
use crate::PARAM_ONE;

verus! {

/// Samples in each channel of a frame.
pub const WAVE_SIZE: usize = 256;

/// Frames in the table.
pub const FRAME_COUNT: usize = 256;

/// Table samples played per cycle of the base frequency.
pub const TABLE_SPEED: u64 = 16;

/// Highest frequency, in units of `1 / FREQ_ONE` Hz, that a lookup accepts.
pub const MAX_TABLE_FREQ: u64 = 4294967296;

/// Highest amplitude that a lookup accepts.
pub const MAX_WAVE_AMP: u64 = 4294967296;

/// Largest magnitude of a table sample: a full-scale reference sample weighted by
/// `FRAME_COUNT`.
pub const TABLE_PEAK: i32 = 8388608;

/// A one-cycle reference sine as the table is built from: `WAVE_SIZE` samples within full
/// scale.
pub open spec fn sine_cycle_ok(sine: Seq<i32>) -> bool {
    &&& sine.len() == WAVE_SIZE
    &&& forall|n: int| 0 <= n < sine.len() ==> -SAMPLE_ONE <= #[trigger] sine[n] <= SAMPLE_ONE
}

/// Time of sample `n` of a reference cycle, in units of `1 / 256`: the cycle starts at -1 and
/// advances by 4/256 per sample.
pub open spec fn reference_time(n: int) -> int {
    4 * n - 256
}

/// Sample `n` of the reference square.
pub open spec fn square_at(n: int) -> int {
    if reference_time(n) > 0 {
        SAMPLE_ONE as int
    } else {
        -SAMPLE_ONE
    }
}

/// Sample `n` of frame `k`: the reference sine weighted by `k` plus the reference square
/// weighted by `FRAME_COUNT - k`, in units of `SAMPLE_ONE / FRAME_COUNT`.
pub open spec fn blend(sine: Seq<i32>, n: int, k: int) -> int {
    sine[n] * k + square_at(n) * (FRAME_COUNT - k)
}

/// One channel of frame `k`.
pub open spec fn blended_wave(sine: Seq<i32>, k: int) -> Seq<i32> {
    Seq::new(WAVE_SIZE as nat, |n: int| blend(sine, n, k) as i32)
}

/// The whole table built from a reference sine: both channels of frame `k` hold
/// `blended_wave(sine, k)`.
pub open spec fn blended_table(sine: Seq<i32>) -> Seq<(Seq<i32>, Seq<i32>)> {
    Seq::new(FRAME_COUNT as nat, |k: int| (blended_wave(sine, k), blended_wave(sine, k)))
}

/// A table of the right shape whose samples stay within `TABLE_PEAK`.
pub open spec fn table_ok(t: Seq<(Seq<i32>, Seq<i32>)>) -> bool {
    &&& t.len() == FRAME_COUNT
    &&& forall|k: int|
        0 <= k < t.len() ==> {
            &&& (#[trigger] t[k]).0.len() == WAVE_SIZE
            &&& t[k].1.len() == WAVE_SIZE
            &&& forall|n: int|
                0 <= n < WAVE_SIZE ==> -TABLE_PEAK <= #[trigger] t[k].0[n] <= TABLE_PEAK && -TABLE_PEAK
                    <= t[k].1[n] <= TABLE_PEAK
        }
}

/// Frame selected by a morph control: `morph * FRAME_COUNT / PARAM_ONE` wrapped to the table,
/// except that a morph of exactly one selects the last frame.
pub open spec fn frame_of(morph: u32) -> int {
    if morph == PARAM_ONE {
        FRAME_COUNT - 1
    } else {
        ((FRAME_COUNT as int) * (morph as int) / (PARAM_ONE as int)) % (FRAME_COUNT as int)
    }
}

/// Table sample played at sample `time`: `time / rate * freq * TABLE_SPEED` seconds-cycles,
/// rounded down and wrapped to the table.
pub open spec fn sample_of(time: u64, rate: u32, freq: u64) -> int {
    ((time as int) * (freq as int) * (TABLE_SPEED as int) / period_units(rate)) % (
    WAVE_SIZE as int)
}

/// Left and right samples of table `t` at `time`, scaled by `amp`.
pub open spec fn wave_at(
    t: Seq<(Seq<i32>, Seq<i32>)>,
    time: u64,
    rate: u32,
    freq: u64,
    morph: u32,
    amp: u64,
) -> (int, int) {
    let f = frame_of(morph);
    let s = sample_of(time, rate, freq);
    (t[f].0[s] * amp, t[f].1[s] * amp)
}

/// One frame of the table: a left and a right channel of `WAVE_SIZE` samples.
pub struct StereoWave {
    l: Vec<i32>,
    r: Vec<i32>,
}

impl View for StereoWave {
    type V = (Seq<i32>, Seq<i32>);

    closed spec fn view(&self) -> (Seq<i32>, Seq<i32>) {
        (self.l@, self.r@)
    }
}

fn blend_sample(sine: &Vec<i32>, n: usize, k: u32) -> (r: i32)
    requires
        sine_cycle_ok(sine@),
        n < WAVE_SIZE,
        k <= FRAME_COUNT,
    ensures
        r == blend(sine@, n as int, k as int),
        -TABLE_PEAK <= r <= TABLE_PEAK,
{
    let square = generate_one_cycle_square(4 * n as i64 - 256);
    let s = sine[n];
    proof {
        assert(-SAMPLE_ONE <= s <= SAMPLE_ONE);
        assert(-(SAMPLE_ONE as int) * (k as int) <= (s as int) * (k as int) <= (SAMPLE_ONE as int)
            * (k as int)) by (nonlinear_arith)
            requires
                -SAMPLE_ONE <= s <= SAMPLE_ONE,
                k >= 0,
        ;
        assert(-(SAMPLE_ONE as int) * (FRAME_COUNT - k) <= (square as int) * (FRAME_COUNT - k)
            <= (SAMPLE_ONE as int) * (FRAME_COUNT - k)) by (nonlinear_arith)
            requires
                square == SAMPLE_ONE || square == -SAMPLE_ONE,
                k <= FRAME_COUNT,
        ;
        assert((SAMPLE_ONE as int) * (k as int) + (SAMPLE_ONE as int) * (FRAME_COUNT - k)
            == TABLE_PEAK) by (nonlinear_arith);
    }
    s * k as i32 + square * (FRAME_COUNT as i32 - k as i32)
}

impl StereoWave {
    /// The two reference cycles side by side: the sine on the left and the square on the
    /// right, at full scale `SAMPLE_ONE`.
    pub fn default(sine: &Vec<i32>) -> (r: StereoWave)
        requires
            sine_cycle_ok(sine@),
        ensures
            r@ == (sine@, Seq::new(WAVE_SIZE as nat, |n: int| square_at(n) as i32)),
    {
        let mut l: Vec<i32> = Vec::with_capacity(WAVE_SIZE);
        let mut r: Vec<i32> = Vec::with_capacity(WAVE_SIZE);
        let mut n: usize = 0;
        while n < WAVE_SIZE
            invariant
                sine_cycle_ok(sine@),
                n <= WAVE_SIZE,
                l@ == sine@.subrange(0, n as int),
                r@ == Seq::new(n as nat, |i: int| square_at(i) as i32),
            decreases WAVE_SIZE - n,
        {
            l.push(sine[n]);
            r.push(generate_one_cycle_square(4 * n as i64 - 256));
            n = n + 1;
        }
        assert(l@ == sine@);
        StereoWave { l, r }
    }

    /// Frame `morph` of the table: both channels hold the reference sine weighted by `morph`
    /// and the reference square weighted by `FRAME_COUNT - morph`.
    pub fn sin_to_square(morph: u32, sine: &Vec<i32>) -> (r: StereoWave)
        requires
            sine_cycle_ok(sine@),
            morph <= FRAME_COUNT,
        ensures
            r@ == (blended_wave(sine@, morph as int), blended_wave(sine@, morph as int)),
            forall|n: int|
                0 <= n < WAVE_SIZE ==> -TABLE_PEAK <= #[trigger] r@.0[n] <= TABLE_PEAK,
    {
        let mut l: Vec<i32> = Vec::with_capacity(WAVE_SIZE);
        let mut r: Vec<i32> = Vec::with_capacity(WAVE_SIZE);
        let mut n: usize = 0;
        while n < WAVE_SIZE
            invariant
                sine_cycle_ok(sine@),
                morph <= FRAME_COUNT,
                n <= WAVE_SIZE,
                l@ == Seq::new(n as nat, |i: int| blend(sine@, i, morph as int) as i32),
                r@ == l@,
                forall|i: int| 0 <= i < n ==> -TABLE_PEAK <= #[trigger] l@[i] <= TABLE_PEAK,
            decreases WAVE_SIZE - n,
        {
            let v = blend_sample(sine, n, morph);
            l.push(v);
            r.push(v);
            n = n + 1;
        }
        StereoWave { l, r }
    }
}

/// The morphing wavetable, fixed once built.
pub struct Wavetable {
    frames: Vec<StereoWave>,
}

impl View for Wavetable {
    type V = Seq<(Seq<i32>, Seq<i32>)>;

    closed spec fn view(&self) -> Seq<(Seq<i32>, Seq<i32>)> {
        self.frames@.map_values(|w: StereoWave| w@)
    }
}

/// Frame selected by a morph control (see `frame_of`).
pub fn frame_index(morph: u32) -> (r: usize)
    ensures
        r == frame_of(morph),
        r < FRAME_COUNT,
        morph == PARAM_ONE ==> r == FRAME_COUNT - 1,
{
    proof {
        assert((FRAME_COUNT as int) * (morph as int) <= 256 * (u32::MAX as int))
            by (nonlinear_arith)
            requires
                morph <= u32::MAX,
        ;
    }
    if morph == PARAM_ONE {
        FRAME_COUNT - 1
    } else {
        ((FRAME_COUNT as u64 * morph as u64 / PARAM_ONE as u64) % FRAME_COUNT as u64) as usize
    }
}

/// Table sample played at sample `time` (see `sample_of`).
pub fn sample_index(time: u64, rate: u32, base_freq: u64) -> (r: usize)
    requires
        rate > 0,
        base_freq <= MAX_TABLE_FREQ,
    ensures
        r == sample_of(time, rate, base_freq),
        r < WAVE_SIZE,
{
    proof {
        assert((time as int) * (base_freq as int) * (TABLE_SPEED as int) <= (u64::MAX as int) * (
        MAX_TABLE_FREQ as int) * 16) by (nonlinear_arith)
            requires
                time <= u64::MAX,
                base_freq <= MAX_TABLE_FREQ,
        ;
        assert((rate as int) * (FREQ_ONE as int) > 0) by (nonlinear_arith)
            requires
                rate > 0,
        ;
        assert((rate as int) * (FREQ_ONE as int) <= (u32::MAX as int) * (FREQ_ONE as int))
            by (nonlinear_arith)
            requires
                rate <= u32::MAX,
        ;
    }
    let position = time as u128 * base_freq as u128 * TABLE_SPEED as u128 / (rate as u128
        * FREQ_ONE as u128);
    (position % WAVE_SIZE as u128) as usize
}

/// Shifting the time by `k` periods of the table, `d` samples with
/// `d * freq * TABLE_SPEED == k * WAVE_SIZE * rate * FREQ_ONE`, plays the same table sample.
pub proof fn lemma_sample_of_periodic(time: u64, d: u64, k: nat, rate: u32, freq: u64)
    requires
        rate > 0,
        time + d <= u64::MAX,
        (d as int) * (freq as int) * (TABLE_SPEED as int) == (k as int) * (WAVE_SIZE as int)
            * period_units(rate),
    ensures
        sample_of((time + d) as u64, rate, freq) == sample_of(time, rate, freq),
{
    let p = period_units(rate);
    assert(p > 0) by (nonlinear_arith)
        requires
            p == (rate as int) * (FREQ_ONE as int),
            rate > 0,
    ;
    let x = (time as int) * (freq as int) * (TABLE_SPEED as int);
    let j = (k as int) * (WAVE_SIZE as int);
    assert(((time + d) as int) * (freq as int) * (TABLE_SPEED as int) == x + (d as int) * (
    freq as int) * (TABLE_SPEED as int)) by (nonlinear_arith)
        requires
            x == (time as int) * (freq as int) * (TABLE_SPEED as int),
    ;
    assert((k as int) * (WAVE_SIZE as int) * p == j * p) by (nonlinear_arith)
        requires
            j == (k as int) * (WAVE_SIZE as int),
    ;
    lemma_hoist_over_denominator(x, j, p as nat);
    lemma_mod_multiples_vanish(k as int, x / p, WAVE_SIZE as int);
    assert((WAVE_SIZE as int) * (k as int) + x / p == x / p + j);
}

/// Periodicity of the lookup: shifting the time by `k` periods of the table, `d` samples with
/// `d * freq * TABLE_SPEED == k * WAVE_SIZE * rate * FREQ_ONE`, gives the same left and right
/// samples.
pub proof fn lemma_get_wave_periodic(
    t: Seq<(Seq<i32>, Seq<i32>)>,
    time: u64,
    d: u64,
    k: nat,
    rate: u32,
    freq: u64,
    morph: u32,
    amp: u64,
)
    requires
        rate > 0,
        time + d <= u64::MAX,
        (d as int) * (freq as int) * (TABLE_SPEED as int) == (k as int) * (WAVE_SIZE as int)
            * period_units(rate),
    ensures
        wave_at(t, (time + d) as u64, rate, freq, morph, amp) == wave_at(
            t,
            time,
            rate,
            freq,
            morph,
            amp,
        ),
{
    lemma_sample_of_periodic(time, d, k, rate, freq);
}

impl Wavetable {
    /// Builds the table from a one-cycle reference sine: frame `k` blends the sine, weighted
    /// by `k`, with the reference square, weighted by `FRAME_COUNT - k`.
    pub fn default(sine: &Vec<i32>) -> (r: Wavetable)
        requires
            sine_cycle_ok(sine@),
        ensures
            r@ == blended_table(sine@),
            table_ok(r@),
    {
        let mut frames: Vec<StereoWave> = Vec::with_capacity(FRAME_COUNT);
        let mut k: usize = 0;
        while k < FRAME_COUNT
            invariant
                sine_cycle_ok(sine@),
                k <= FRAME_COUNT,
                frames@.len() == k,
                forall|j: int|
                    0 <= j < k ==> (#[trigger] frames@[j])@ == (
                    blended_wave(sine@, j),
                    blended_wave(sine@, j),
                    ),
                forall|j: int, n: int|
                    0 <= j < k && 0 <= n < WAVE_SIZE ==> -TABLE_PEAK <= #[trigger] frames@[j]@.0[n]
                        <= TABLE_PEAK,
            decreases FRAME_COUNT - k,
        {
            let w = StereoWave::sin_to_square(k as u32, sine);
            frames.push(w);
            k = k + 1;
        }
        let r = Wavetable { frames };
        assert(r@ =~= blended_table(sine@));
        r
    }

    /// Left and right samples at sample `time` of the frame that `morph` selects, scaled by
    /// `amp` (see `wave_at`).
    pub fn get_wave(&self, time: u64, rate: u32, base_freq: u64, morph: u32, amp: u64) -> (r: (
        i64,
        i64,
    ))
        requires
            table_ok(self@),
            rate > 0,
            base_freq <= MAX_TABLE_FREQ,
            amp <= MAX_WAVE_AMP,
        ensures
            (r.0 as int, r.1 as int) == wave_at(self@, time, rate, base_freq, morph, amp),
            morph == PARAM_ONE ==> {
                let s = sample_of(time, rate, base_freq);
                let last = self@[FRAME_COUNT - 1];
                (r.0 as int, r.1 as int) == (last.0[s] * amp, last.1[s] * amp)
            },
            -(TABLE_PEAK as int) * (MAX_WAVE_AMP as int) <= r.0 <= (TABLE_PEAK as int) * (
            MAX_WAVE_AMP as int),
            -(TABLE_PEAK as int) * (MAX_WAVE_AMP as int) <= r.1 <= (TABLE_PEAK as int) * (
            MAX_WAVE_AMP as int),
    {
        let f = frame_index(morph);
        let s = sample_index(time, rate, base_freq);
        let frame = &self.frames[f];
        proof {
            assert(self@[f as int] == self.frames@[f as int]@);
            assert(frame.l@ == self@[f as int].0);
            assert(frame.r@ == self@[f as int].1);
        }
        let l = frame.l[s];
        let r = frame.r[s];
        proof {
            assert(-TABLE_PEAK <= self@[f as int].0[s as int] <= TABLE_PEAK);
            assert(-(TABLE_PEAK as int) * (amp as int) <= (l as int) * (amp as int) <= (
            TABLE_PEAK as int) * (amp as int)) by (nonlinear_arith)
                requires
                    -TABLE_PEAK <= l <= TABLE_PEAK,
                    amp >= 0,
            ;
            assert(-(TABLE_PEAK as int) * (amp as int) <= (r as int) * (amp as int) <= (
            TABLE_PEAK as int) * (amp as int)) by (nonlinear_arith)
                requires
                    -TABLE_PEAK <= r <= TABLE_PEAK,
                    amp >= 0,
            ;
            assert((TABLE_PEAK as int) * (amp as int) <= (TABLE_PEAK as int) * (
            MAX_WAVE_AMP as int)) by (nonlinear_arith)
                requires
                    amp <= MAX_WAVE_AMP,
            ;
        }
        (l as i64 * amp as i64, r as i64 * amp as i64)
    }
}

} // verus!
