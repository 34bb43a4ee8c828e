//! The audio engine: the voice pool, the parameter table, the wavetable and the time
//! accumulator, updated by control messages and rendered sample by sample.
use vstd::prelude::*;

use vstd::arithmetic::div_mod::lemma_div_is_ordered;

use crate::envelope::{
    attack_start, envelope_phases, in_phase_at, lemma_full_envelope, lemma_release_reaches_off,
    release_samples, run_envelope, sustain_amplitude, envelope_next, next_envelope, valid_rate, AdsrParams, Voice, VoiceState,
};
use crate::params::{clamp_param, clamp_param_spec, table_wf, Param, StateUpdate, NUM_PARAMETERS};
use crate::voice_pool::{
    active_count, note_off, note_off_spec, note_on, note_on_spec, pool_wf,
};
use crate::wave_math::{midi_pitch_to_freq, pitch_freq, scale_to_range, scale_to_range_spec};
use crate::wave_table::{
    blended_table, sine_cycle_ok, table_ok, wave_at, Wavetable, MAX_WAVE_AMP, TABLE_PEAK,
};
use crate::{EXACT_TIMING_RATE, NUM_VOICES, PARAM_ONE, PARAM_TO_AMP};

verus! {

/// Gain applied to every voice before mixing.
pub const VOICE_GAIN: i64 = 10;

/// Fixed divisor of the mix: the headroom left for summed voices, independent of how many
/// voices sound.
pub const MIX_HEADROOM: u32 = 6;

/// Ratio between the units of a table lookup (`2^55` for full scale: a table sample of
/// `TABLE_PEAK` at an amplitude of `2^32`) and the units of the output (`OUTPUT_ONE`).
pub const OUTPUT_SCALE: i64 = 2147483648;

/// Fixed-point unit of an output sample: `OUTPUT_ONE` stands for 1.0.
pub const OUTPUT_ONE: i32 = 16777216;

/// Sample rate, in Hz, that a new engine runs at.
pub const DEFAULT_SAMPLE_RATE: u32 = 44100;

/// Reasons a configuration call is refused.
#[derive(Debug, Clone, Copy, PartialEq, Eq, Structural)]
pub enum DspError {
    /// The sample rate is zero.
    InvalidSampleRate,
}

/// The engine's state as the contracts speak of it.
pub struct DspView {
    pub sample_rate: u32,
    pub time: u64,
    pub voices: Seq<Voice>,
    pub parameter: Seq<u32>,
    pub table: Seq<(Seq<i32>, Seq<i32>)>,
}

/// Handles all audio processing: the voices, the parameter table, the wavetable and the
/// elapsed time, in samples.
pub struct PluginDsp {
    sample_rate: u32,
    time: u64,
    voices: Vec<Voice>,
    parameter: Vec<u32>,
    wave_table: Wavetable,
}

impl View for PluginDsp {
    type V = DspView;

    closed spec fn view(&self) -> DspView {
        DspView {
            sample_rate: self.sample_rate,
            time: self.time,
            voices: self.voices@,
            parameter: self.parameter@,
            table: self.wave_table@,
        }
    }
}

/// An engine state in order: a valid sample rate, a pool in order, a full table of normalized
/// controls and a wavetable of the right shape.
pub open spec fn dsp_wf(s: DspView) -> bool {
    &&& valid_rate(s.sample_rate)
    &&& pool_wf(s.voices)
    &&& table_wf(s.parameter)
    &&& table_ok(s.table)
}

/// The envelope controls of a parameter table.
pub open spec fn adsr_of(params: Seq<u32>) -> AdsrParams {
    AdsrParams {
        attack: params[Param::AmpAttack.spec_index() as int],
        decay: params[Param::AmpDecay.spec_index() as int],
        sustain: params[Param::AmpSustainLevel.spec_index() as int],
        release: params[Param::AmpRelease.spec_index() as int],
    }
}

/// The state after one message.
pub open spec fn apply_update_spec(s: DspView, m: StateUpdate) -> DspView {
    match m {
        StateUpdate::SetKnob(index, value) => if 0 <= index < NUM_PARAMETERS {
            DspView { parameter: s.parameter.update(index as int, clamp_param_spec(value)), ..s }
        } else {
            s
        },
        StateUpdate::NoteOn(note) => DspView { voices: note_on_spec(s.voices, note), ..s },
        StateUpdate::NoteOff(note) => DspView { voices: note_off_spec(s.voices, note), ..s },
    }
}

/// The state after the messages, applied oldest first.
pub open spec fn apply_updates_spec(s: DspView, msgs: Seq<StateUpdate>) -> DspView
    decreases msgs.len(),
{
    if msgs.len() == 0 {
        s
    } else {
        apply_update_spec(apply_updates_spec(s, msgs.drop_last()), msgs.last())
    }
}

/// The state after a three-byte MIDI message: status 0x80 releases the note in the second
/// byte, status 0x90 starts it, anything else is ignored. The velocity is not read.
pub open spec fn midi_event_spec(s: DspView, data: Seq<u8>) -> DspView {
    if data[0] == 128 {
        apply_update_spec(s, StateUpdate::NoteOff(data[1]))
    } else if data[0] == 144 {
        apply_update_spec(s, StateUpdate::NoteOn(data[1]))
    } else {
        s
    }
}

/// Every voice advanced by one sample of its envelope.
pub open spec fn voices_after(s: DspView) -> Seq<Voice> {
    Seq::new(
        s.voices.len(),
        |i: int| envelope_next(s.voices[i], adsr_of(s.parameter), s.sample_rate),
    )
}

/// Amplitude of a table lookup for a voice: the wavetable level times the voice's envelope,
/// in units of `2^32`.
pub open spec fn voice_gain(params: Seq<u32>, amplitude: u64) -> nat {
    (params[Param::WaveTableAmp.spec_index() as int] as nat) * (amplitude as nat / (
    PARAM_TO_AMP as nat))
}

/// Frequency at which a voice reads the table: an octave above its note.
pub open spec fn voice_freq(note: u8) -> nat {
    2 * pitch_freq(note)
}

/// What voice `i` adds to the left and right mix at the current sample: its table lookup at
/// its advanced envelope if it is sounding, nothing otherwise.
pub open spec fn voice_out(s: DspView, i: int) -> (int, int) {
    if s.voices[i].is_active() {
        let v = envelope_next(s.voices[i], adsr_of(s.parameter), s.sample_rate);
        wave_at(
            s.table,
            s.time,
            s.sample_rate,
            voice_freq(s.voices[i].note) as u64,
            s.parameter[Param::ShapeMorph.spec_index() as int],
            voice_gain(s.parameter, v.amplitude) as u64,
        )
    } else {
        (0, 0)
    }
}

/// Sum of what the first `n` voices add to the mix.
pub open spec fn mix(s: DspView, n: nat) -> (int, int)
    decreases n,
{
    if n == 0 {
        (0, 0)
    } else {
        let prev = mix(s, (n - 1) as nat);
        let o = voice_out(s, n - 1);
        (prev.0 + o.0, prev.1 + o.1)
    }
}

/// `x * VOICE_GAIN / OUTPUT_SCALE`, rounded toward zero: a mix in output units.
pub open spec fn output_units(x: int) -> int {
    if x >= 0 {
        (x * VOICE_GAIN) / (OUTPUT_SCALE as int)
    } else {
        -((-x * VOICE_GAIN) / (OUTPUT_SCALE as int))
    }
}

/// An output sample from a mix: in output units, divided by `MIX_HEADROOM`.
pub open spec fn output_sample(x: int) -> int {
    scale_to_range_spec(output_units(x) as i64, 1, MIX_HEADROOM)
}

/// Left and right output samples at the current state.
pub open spec fn frame_out(s: DspView) -> (int, int) {
    let m = mix(s, NUM_VOICES as nat);
    (output_sample(m.0), output_sample(m.1))
}

/// The state after one sample: every envelope advanced and the time one sample later.
pub open spec fn frame_next(s: DspView) -> DspView {
    DspView { voices: voices_after(s), time: (s.time + 1) as u64, ..s }
}

/// The state after `k` samples.
pub open spec fn render(s: DspView, k: nat) -> DspView
    decreases k,
{
    if k == 0 {
        s
    } else {
        frame_next(render(s, (k - 1) as nat))
    }
}

/// Bound of what one voice adds to the mix.
pub open spec fn voice_peak() -> int {
    (TABLE_PEAK as int) * (MAX_WAVE_AMP as int)
}

proof fn lemma_envelope_keeps_pool(s: DspView)
    requires
        dsp_wf(s),
    ensures
        pool_wf(voices_after(s)),
{
    let p = adsr_of(s.parameter);
    let vs = voices_after(s);
    assert forall|i: int| 0 <= i < vs.len() implies (#[trigger] vs[i]).wf() && vs[i].note
        <= crate::voice_pool::MAX_NOTE by {
        lemma_envelope_step_facts(s.voices[i], p, s.sample_rate);
    }
    assert forall|i: int, j: int|
        0 <= i < vs.len() && 0 <= j < vs.len() && i != j && (#[trigger] vs[i]).is_active()
            && (#[trigger] vs[j]).is_active() implies vs[i].note != vs[j].note by {
        lemma_envelope_step_facts(s.voices[i], p, s.sample_rate);
        lemma_envelope_step_facts(s.voices[j], p, s.sample_rate);
        assert(s.voices[i].is_active() && s.voices[j].is_active());
    }
}

proof fn lemma_envelope_step_facts(v: Voice, p: AdsrParams, rate: u32)
    requires
        v.wf(),
        p.wf(),
        valid_rate(rate),
    ensures
        envelope_next(v, p, rate).wf(),
        envelope_next(v, p, rate).note == v.note,
        envelope_next(v, p, rate).is_active() ==> v.is_active(),
        !v.is_active() ==> envelope_next(v, p, rate) == v,
{
    crate::envelope::lemma_envelope_next_wf(v, p, rate);
}

/// `x * VOICE_GAIN / OUTPUT_SCALE`, rounded toward zero (see `output_units`).
fn to_output_units(x: i64) -> (r: i64)
    requires
        -((NUM_VOICES as int) * voice_peak()) <= x <= (NUM_VOICES as int) * voice_peak(),
    ensures
        r == output_units(x as int),
        -(NUM_VOICES as int) * 10 * (OUTPUT_ONE as int) <= r <= (NUM_VOICES as int) * 10 * (
        OUTPUT_ONE as int),
{
    proof {
        let m: int = if x >= 0 { x as int } else { -(x as int) };
        let b: int = 432345564227567616;
        assert(voice_peak() == 36028797018963968);
        assert((NUM_VOICES as int) * voice_peak() == b);
        assert(0 <= m <= b);
        assert(0 <= m * 10 <= b * 10) by (nonlinear_arith)
            requires
                0 <= m <= b,
        ;
        lemma_div_is_ordered(m * 10, b * 10, OUTPUT_SCALE as int);
        assert((b * 10) / (OUTPUT_SCALE as int) == 2013265920);
        assert(0 <= (m * 10) / (OUTPUT_SCALE as int)) by (nonlinear_arith)
            requires
                0 <= m * 10,
        ;
    }
    if x >= 0 {
        x * VOICE_GAIN / OUTPUT_SCALE
    } else {
        -((-x) * VOICE_GAIN / OUTPUT_SCALE)
    }
}

impl PluginDsp {
    /// The engine's state is in order.
    pub open spec fn wf(&self) -> bool {
        dsp_wf(self@)
    }

    /// A new engine at `DEFAULT_SAMPLE_RATE`, at time zero, with every voice off, every
    /// control at zero, and the wavetable built from a one-cycle reference sine.
    pub fn new(sine_cycle: &Vec<i32>) -> (r: PluginDsp)
        requires
            sine_cycle_ok(sine_cycle@),
        ensures
            r.wf(),
            r@.sample_rate == DEFAULT_SAMPLE_RATE,
            r@.time == 0,
            r@.voices == Seq::new(NUM_VOICES as nat, |i: int| Voice::default_spec()),
            r@.parameter == Seq::new(NUM_PARAMETERS as nat, |i: int| 0u32),
            r@.table == blended_table(sine_cycle@),
    {
        let mut voices: Vec<Voice> = Vec::with_capacity(NUM_VOICES);
        let mut i: usize = 0;
        while i < NUM_VOICES
            invariant
                i <= NUM_VOICES,
                voices@ == Seq::new(i as nat, |k: int| Voice::default_spec()),
            decreases NUM_VOICES - i,
        {
            voices.push(Voice::default());
            i = i + 1;
        }
        let mut parameter: Vec<u32> = Vec::with_capacity(NUM_PARAMETERS);
        let mut k: usize = 0;
        while k < NUM_PARAMETERS
            invariant
                k <= NUM_PARAMETERS,
                parameter@ == Seq::new(k as nat, |j: int| 0u32),
            decreases NUM_PARAMETERS - k,
        {
            parameter.push(0);
            k = k + 1;
        }
        PluginDsp {
            sample_rate: DEFAULT_SAMPLE_RATE,
            time: 0,
            voices,
            parameter,
            wave_table: Wavetable::default(sine_cycle),
        }
    }

    /// Sets the sample rate, any positive number of hertz. A rate of zero is refused and
    /// leaves the engine unchanged.
    pub fn set_sample_rate(&mut self, rate: u32) -> (r: Result<(), DspError>)
        requires
            old(self).wf(),
        ensures
            final(self).wf(),
            valid_rate(rate) ==> r == Ok::<(), DspError>(()) && final(self)@ == (DspView {
                sample_rate: rate,
                ..old(self)@
            }),
            !valid_rate(rate) ==> r == Err::<(), DspError>(DspError::InvalidSampleRate)
                && final(self)@ == old(self)@,
    {
        if 0 < rate {
            self.sample_rate = rate;
            Ok(())
        } else {
            Err(DspError::InvalidSampleRate)
        }
    }

    /// Starts `note` (see `note_on_spec`): a voice already sounding it goes back to its
    /// attack, otherwise the first free voice takes it; with no free voice the note is
    /// dropped.
    pub fn note_on(&mut self, note: u8)
        requires
            old(self).wf(),
        ensures
            final(self).wf(),
            final(self)@ == apply_update_spec(old(self)@, StateUpdate::NoteOn(note)),
    {
        note_on(&mut self.voices, note);
    }

    /// Releases `note` (see `note_off_spec`); a note that no voice sounds is ignored.
    pub fn note_off(&mut self, note: u8)
        requires
            old(self).wf(),
        ensures
            final(self).wf(),
            final(self)@ == apply_update_spec(old(self)@, StateUpdate::NoteOff(note)),
    {
        note_off(&mut self.voices, note);
    }

    /// Stores a control value, brought into the normalized range; a slot out of range is
    /// ignored.
    pub fn set_parameter(&mut self, index: i32, value: u32)
        requires
            old(self).wf(),
        ensures
            final(self).wf(),
            final(self)@ == apply_update_spec(old(self)@, StateUpdate::SetKnob(index, value)),
    {
        if 0 <= index && index < NUM_PARAMETERS as i32 {
            let v = clamp_param(value);
            self.parameter[index as usize] = v;
        }
    }

    /// Applies one control message.
    pub fn apply_update(&mut self, msg: StateUpdate)
        requires
            old(self).wf(),
        ensures
            final(self).wf(),
            final(self)@ == apply_update_spec(old(self)@, msg),
    {
        match msg {
            StateUpdate::SetKnob(index, value) => self.set_parameter(index, value),
            StateUpdate::NoteOn(note) => self.note_on(note),
            StateUpdate::NoteOff(note) => self.note_off(note),
        }
    }

    /// Applies the messages in the order they arrived; a later value for a control replaces
    /// an earlier one.
    pub fn apply_updates(&mut self, msgs: &Vec<StateUpdate>)
        requires
            old(self).wf(),
        ensures
            final(self).wf(),
            final(self)@ == apply_updates_spec(old(self)@, msgs@),
    {
        let mut i: usize = 0;
        while i < msgs.len()
            invariant
                i <= msgs@.len(),
                self.wf(),
                self@ == apply_updates_spec(old(self)@, msgs@.subrange(0, i as int)),
            decreases msgs@.len() - i,
        {
            proof {
                assert(msgs@.subrange(0, i as int + 1).drop_last() =~= msgs@.subrange(0, i as int));
            }
            self.apply_update(msgs[i]);
            i = i + 1;
        }
        proof {
            assert(msgs@.subrange(0, msgs@.len() as int) =~= msgs@);
        }
    }

    /// Handles a three-byte MIDI message (see `midi_event_spec`).
    pub fn process_midi_event(&mut self, data: [u8; 3])
        requires
            old(self).wf(),
        ensures
            final(self).wf(),
            final(self)@ == midi_event_spec(old(self)@, data@),
    {
        if data[0] == 128 {
            self.note_off(data[1]);
        } else if data[0] == 144 {
            self.note_on(data[1]);
        }
    }

    fn adsr_params(&self) -> (r: AdsrParams)
        requires
            self.wf(),
        ensures
            r == adsr_of(self@.parameter),
            r.wf(),
    {
        AdsrParams {
            attack: self.parameter[Param::AmpAttack.index()],
            decay: self.parameter[Param::AmpDecay.index()],
            sustain: self.parameter[Param::AmpSustainLevel.index()],
            release: self.parameter[Param::AmpRelease.index()],
        }
    }

    /// Advances the envelope of voice `i` by one sample and returns its new amplitude.
    fn adsr_for_voice(&mut self, i: usize, p: AdsrParams) -> (r: u64)
        requires
            i < old(self)@.voices.len(),
            old(self)@.voices[i as int].wf(),
            p.wf(),
            valid_rate(old(self)@.sample_rate),
        ensures
            final(self)@ == (DspView {
                voices: old(self)@.voices.update(
                    i as int,
                    envelope_next(old(self)@.voices[i as int], p, old(self)@.sample_rate),
                ),
                ..old(self)@
            }),
            r == envelope_next(old(self)@.voices[i as int], p, old(self)@.sample_rate).amplitude,
            r <= crate::AMP_ONE,
    {
        let v = next_envelope(self.voices[i], p, self.sample_rate);
        self.voices[i] = v;
        v.amplitude
    }

    /// Renders one stereo sample: advances every sounding voice's envelope, sums the voices'
    /// wavetable lookups, scales the mix by `MIX_HEADROOM` and moves the time on by a sample.
    pub fn render_frame(&mut self) -> (r: (i32, i32))
        requires
            old(self).wf(),
            old(self)@.time < u64::MAX,
        ensures
            final(self).wf(),
            final(self)@ == frame_next(old(self)@),
            (r.0 as int, r.1 as int) == frame_out(old(self)@),
    {
        let ghost s = self@;
        let p = self.adsr_params();
        let wave_amp = self.parameter[Param::WaveTableAmp.index()];
        let morph = self.parameter[Param::ShapeMorph.index()];
        let mut left: i64 = 0;
        let mut right: i64 = 0;
        let mut i: usize = 0;
        while i < self.voices.len()
            invariant
                dsp_wf(s),
                p == adsr_of(s.parameter),
                p.wf(),
                wave_amp == s.parameter[Param::WaveTableAmp.spec_index() as int],
                morph == s.parameter[Param::ShapeMorph.spec_index() as int],
                i <= s.voices.len(),
                self@.voices.len() == s.voices.len(),
                self@.sample_rate == s.sample_rate,
                self@.time == s.time,
                self@.parameter == s.parameter,
                self@.table == s.table,
                forall|j: int|
                    0 <= j < s.voices.len() ==> #[trigger] self@.voices[j] == if j < i {
                        voices_after(s)[j]
                    } else {
                        s.voices[j]
                    },
                (left as int, right as int) == mix(s, i as nat),
                -((i as int) * voice_peak()) <= left <= (i as int) * voice_peak(),
                -((i as int) * voice_peak()) <= right <= (i as int) * voice_peak(),
            decreases s.voices.len() - i,
        {
            proof {
                lemma_envelope_step_facts(s.voices[i as int], p, s.sample_rate);
                assert(voice_peak() == 36028797018963968);
                assert((i as int + 1) * voice_peak() == (i as int) * voice_peak() + voice_peak())
                    by (nonlinear_arith);
                assert((i as int + 1) * voice_peak() <= 12 * voice_peak()) by (nonlinear_arith)
                    requires
                        i + 1 <= 12,
                        voice_peak() > 0,
                ;
            }
            if self.voices[i].state != VoiceState::Off {
                let note = self.voices[i].note;
                let amplitude = self.adsr_for_voice(i, p);
                let freq = midi_pitch_to_freq(note) * 2;
                proof {
                    assert(amplitude as int / (PARAM_TO_AMP as int) <= PARAM_ONE as int);
                    assert((wave_amp as int) * (amplitude as int / (PARAM_TO_AMP as int)) <= (
                    PARAM_ONE as int) * (PARAM_ONE as int)) by (nonlinear_arith)
                        requires
                            wave_amp <= PARAM_ONE,
                            amplitude as int / (PARAM_TO_AMP as int) <= PARAM_ONE as int,
                            amplitude as int / (PARAM_TO_AMP as int) >= 0,
                    ;
                }
                let gain = wave_amp as u64 * (amplitude / PARAM_TO_AMP);
                let out = self.wave_table.get_wave(self.time, self.sample_rate, freq, morph, gain);
                left = left + out.0;
                right = right + out.1;
            }
            i = i + 1;
        }
        proof {
            lemma_envelope_keeps_pool(s);
            assert(self@.voices =~= voices_after(s));
            assert(NUM_VOICES as int * voice_peak() == 432345564227567616);
        }
        self.time = self.time + 1;
        let out_left = scale_to_range(to_output_units(left), 1, MIX_HEADROOM);
        let out_right = scale_to_range(to_output_units(right), 1, MIX_HEADROOM);
        (out_left as i32, out_right as i32)
    }

    /// Processes one audio block: applies the pending control messages, oldest first, then
    /// renders one stereo sample into each position of `left` and `right`.
    pub fn process(
        &mut self,
        updates: &Vec<StateUpdate>,
        left: &mut Vec<i32>,
        right: &mut Vec<i32>,
    )
        requires
            old(self).wf(),
            old(left)@.len() == old(right)@.len(),
            old(self)@.time + old(left)@.len() <= u64::MAX,
        ensures
            final(self).wf(),
            final(self)@ == render(
                apply_updates_spec(old(self)@, updates@),
                old(left)@.len() as nat,
            ),
            final(self)@.time == old(self)@.time + old(left)@.len(),
            final(left)@.len() == old(left)@.len(),
            final(right)@.len() == old(right)@.len(),
            forall|k: int|
                0 <= k < old(left)@.len() ==> {
                    let out = frame_out(
                        render(apply_updates_spec(old(self)@, updates@), k as nat),
                    );
                    &&& #[trigger] final(left)@[k] == out.0
                    &&& final(right)@[k] == out.1
                },
    {
        self.apply_updates(updates);
        let ghost s0 = self@;
        proof {
            lemma_updates_keep_time(old(self)@, updates@);
        }
        let n = left.len();
        let mut k: usize = 0;
        while k < n
            invariant
                n == left@.len(),
                n == right@.len(),
                n == old(left)@.len(),
                k <= n,
                s0.time + n <= u64::MAX,
                self.wf(),
                self@ == render(s0, k as nat),
                self@.time == s0.time + k,
                forall|j: int|
                    0 <= j < k ==> {
                        let out = frame_out(render(s0, j as nat));
                        &&& #[trigger] left@[j] == out.0
                        &&& right@[j] == out.1
                    },
            decreases n - k,
        {
            let out = self.render_frame();
            left[k] = out.0;
            right[k] = out.1;
            k = k + 1;
        }
    }

    /// The sample rate, in Hz.
    pub fn sample_rate(&self) -> (r: u32)
        ensures
            r == self@.sample_rate,
    {
        self.sample_rate
    }

    /// Samples rendered since the engine was made.
    pub fn elapsed(&self) -> (r: u64)
        ensures
            r == self@.time,
    {
        self.time
    }

    /// Voice slot `i`.
    pub fn voice(&self, i: usize) -> (r: Voice)
        requires
            i < self@.voices.len(),
        ensures
            r == self@.voices[i as int],
    {
        self.voices[i]
    }

    /// Number of voice slots.
    pub fn voice_count(&self) -> (r: usize)
        ensures
            r == self@.voices.len(),
    {
        self.voices.len()
    }

    /// The value of the control at `index`, if the slot exists.
    pub fn parameter(&self, index: i32) -> (r: Option<u32>)
        requires
            self.wf(),
        ensures
            0 <= index < NUM_PARAMETERS ==> r == Some(self@.parameter[index as int]),
            !(0 <= index < NUM_PARAMETERS) ==> r == None::<u32>,
    {
        if 0 <= index && index < NUM_PARAMETERS as i32 {
            Some(self.parameter[index as usize])
        } else {
            None
        }
    }

    /// Number of sounding voices.
    pub fn active_voice_count(&self) -> (r: usize)
        ensures
            r == active_count(self@.voices),
    {
        let mut count: usize = 0;
        let mut i: usize = 0;
        while i < self.voices.len()
            invariant
                i <= self@.voices.len(),
                count <= i,
                count == active_count(self@.voices.subrange(0, i as int)),
            decreases self@.voices.len() - i,
        {
            proof {
                assert(self@.voices.subrange(0, i as int + 1).drop_last() =~= self@.voices.subrange(
                    0,
                    i as int,
                ));
            }
            if self.voices[i].state != VoiceState::Off {
                count = count + 1;
            }
            i = i + 1;
        }
        proof {
            assert(self@.voices.subrange(0, i as int) =~= self@.voices);
        }
        count
    }
}

proof fn lemma_render_keeps(s: DspView, k: nat)
    ensures
        render(s, k).parameter == s.parameter,
        render(s, k).sample_rate == s.sample_rate,
        render(s, k).table == s.table,
        render(s, k).voices.len() == s.voices.len(),
    decreases k,
{
    if k > 0 {
        lemma_render_keeps(s, (k - 1) as nat);
    }
}

/// Sustain follows the level: a voice in its sustain when a block starts, once the block's
/// messages are applied, sounds at the sustain level of the parameter table from the first
/// rendered sample of the block on, whatever level it had before.
pub proof fn lemma_sustain_through_render(s: DspView, j: int, k: nat)
    requires
        0 <= j < s.voices.len(),
        s.voices[j].state == VoiceState::Sustain,
        k >= 1,
    ensures
        render(s, k).voices[j] == (Voice {
            state: VoiceState::Sustain,
            amplitude: sustain_amplitude(
                s.parameter[Param::AmpSustainLevel.spec_index() as int],
            ) as u64,
            ..s.voices[j]
        }),
    decreases k,
{
    lemma_render_keeps(s, (k - 1) as nat);
    if k > 1 {
        lemma_sustain_through_render(s, j, (k - 1) as nat);
    }
}

/// Over the samples of a block, each voice follows its own envelope: after `k` samples voice
/// `j` is `run_envelope` of its state at the start, under the block's controls and rate.
pub proof fn lemma_render_runs_envelope(s: DspView, j: int, k: nat)
    requires
        0 <= j < s.voices.len(),
    ensures
        render(s, k).voices[j] == run_envelope(s.voices[j], adsr_of(s.parameter), s.sample_rate, k),
    decreases k,
{
    if k > 0 {
        lemma_render_keeps(s, (k - 1) as nat);
        lemma_render_runs_envelope(s, j, (k - 1) as nat);
    }
}

/// A whole note at the engine: when voice `j` has just started its attack from silence (as a
/// note-on into a free slot leaves it), the samples rendered from then on, under fixed
/// controls, take it through attack, decay and sustain as `lemma_full_envelope` states: each
/// phase once, in order, none skipped.
pub proof fn lemma_note_phases_through_render(s: DspView, j: int, note: u8)
    requires
        dsp_wf(s),
        s.sample_rate <= EXACT_TIMING_RATE,
        0 <= j < s.voices.len(),
        s.voices[j] == attack_start(note),
    ensures
        forall|k: nat|
            #[trigger] render(s, k).voices[j] == run_envelope(
                attack_start(note),
                adsr_of(s.parameter),
                s.sample_rate,
                k,
            ),
        exists|nd: nat| #[trigger] envelope_phases(note, adsr_of(s.parameter), s.sample_rate, nd),
{
    assert forall|k: nat|
        #[trigger] render(s, k).voices[j] == run_envelope(
            attack_start(note),
            adsr_of(s.parameter),
            s.sample_rate,
            k,
        ) by {
        lemma_render_runs_envelope(s, j, k);
    }
    lemma_full_envelope(note, adsr_of(s.parameter), s.sample_rate);
}

/// The end of a note at the engine: when voice `j` is in its release (as a note-off leaves
/// it), the samples rendered from then on, under fixed controls, keep it in its release and
/// turn it off, amplitude zero, within `release_samples`, and it stays off afterwards.
pub proof fn lemma_release_through_render(s: DspView, j: int)
    requires
        dsp_wf(s),
        0 <= j < s.voices.len(),
        s.voices[j].state == VoiceState::Release,
    ensures
        forall|k: nat|
            #[trigger] render(s, k).voices[j] == run_envelope(
                s.voices[j],
                adsr_of(s.parameter),
                s.sample_rate,
                k,
            ),
        exists|n: nat|
            1 <= n <= release_samples(adsr_of(s.parameter), s.sample_rate) && run_envelope(
                s.voices[j],
                adsr_of(s.parameter),
                s.sample_rate,
                n,
            ) == (Voice { state: VoiceState::Off, note: s.voices[j].note, amplitude: 0 })
                && forall|i: nat|
                i < n ==> #[trigger] in_phase_at(
                    s.voices[j],
                    adsr_of(s.parameter),
                    s.sample_rate,
                    i,
                    VoiceState::Release,
                ),
{
    assert forall|k: nat|
        #[trigger] render(s, k).voices[j] == run_envelope(
            s.voices[j],
            adsr_of(s.parameter),
            s.sample_rate,
            k,
        ) by {
        lemma_render_runs_envelope(s, j, k);
    }
    assert(s.voices[j] == Voice {
        state: VoiceState::Release,
        note: s.voices[j].note,
        amplitude: s.voices[j].amplitude,
    });
    lemma_release_reaches_off(
        s.voices[j].note,
        s.voices[j].amplitude,
        adsr_of(s.parameter),
        s.sample_rate,
    );
}

/// Messages that only set controls leave every voice as it was.
pub proof fn lemma_knobs_keep_voices(s: DspView, msgs: Seq<StateUpdate>)
    requires
        forall|i: int| 0 <= i < msgs.len() ==> (#[trigger] msgs[i]) is SetKnob,
    ensures
        apply_updates_spec(s, msgs).voices == s.voices,
    decreases msgs.len(),
{
    if msgs.len() > 0 {
        assert(msgs[msgs.len() - 1] is SetKnob);
        lemma_knobs_keep_voices(s, msgs.drop_last());
    }
}

proof fn lemma_updates_keep_time(s: DspView, msgs: Seq<StateUpdate>)
    ensures
        apply_updates_spec(s, msgs).time == s.time,
    decreases msgs.len(),
{
    if msgs.len() > 0 {
        lemma_updates_keep_time(s, msgs.drop_last());
    }
}

} // verus!
