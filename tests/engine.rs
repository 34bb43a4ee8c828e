use machine_elf::dsp::{DspError, PluginDsp, OUTPUT_ONE};
use machine_elf::envelope::{next_envelope, AdsrParams, Voice, VoiceState};
use machine_elf::params::{Param, StateUpdate};
use machine_elf::wave_table::WAVE_SIZE;
use machine_elf::{AMP_ONE, NUM_VOICES, PARAM_ONE, PARAM_TO_AMP};

fn sine_cycle() -> Vec<i32> {
    (0..WAVE_SIZE)
        .map(|n| {
            let t = -1.0f64 + 4.0 * n as f64 / 256.0;
            let v = ((t * std::f64::consts::TAU).sin() * 32768.0).round() as i32;
            v.clamp(-32768, 32768)
        })
        .collect()
}

fn engine() -> PluginDsp {
    PluginDsp::new(&sine_cycle())
}

fn set(dsp: &mut PluginDsp, p: Param, value: u32) {
    dsp.set_parameter(p.index() as i32, value);
}

fn render_one(dsp: &mut PluginDsp) -> (i32, i32) {
    let mut l = vec![0i32; 1];
    let mut r = vec![0i32; 1];
    dsp.process(&Vec::new(), &mut l, &mut r);
    (l[0], r[0])
}

fn states_of(dsp: &PluginDsp) -> Vec<VoiceState> {
    (0..dsp.voice_count()).map(|i| dsp.voice(i).state).collect()
}

fn slots_playing(dsp: &PluginDsp, note: u8) -> usize {
    (0..dsp.voice_count())
        .filter(|&i| {
            let v = dsp.voice(i);
            v.state != VoiceState::Off && v.note == note
        })
        .count()
}

#[test]
fn attack_at_full_control_lasts_one_second_of_samples() {
    let p = AdsrParams { attack: PARAM_ONE, decay: PARAM_ONE, sustain: 0, release: PARAM_ONE };
    let mut v = Voice { state: VoiceState::Attack, note: 60, amplitude: 0 };
    let mut samples = 0u32;
    while v.state == VoiceState::Attack {
        let next = next_envelope(v, p, 44100);
        assert!(next.amplitude > v.amplitude);
        v = next;
        samples += 1;
        assert!(samples <= 44101);
    }
    assert_eq!(samples, 44100);
    assert_eq!(v.state, VoiceState::Decay);
    assert_eq!(v.amplitude, AMP_ONE);
}

#[test]
fn decay_falls_until_sustain_level() {
    let sustain = PARAM_ONE / 2;
    let p = AdsrParams { attack: PARAM_ONE, decay: PARAM_ONE / 100, sustain, release: PARAM_ONE };
    let level = sustain as u64 * PARAM_TO_AMP;
    let mut v = Voice { state: VoiceState::Decay, note: 60, amplitude: AMP_ONE };
    loop {
        let next = next_envelope(v, p, 44100);
        assert!(next.amplitude <= v.amplitude);
        assert_eq!(next.state == VoiceState::Sustain, next.amplitude <= level);
        v = next;
        if v.state == VoiceState::Sustain {
            break;
        }
        assert_eq!(v.state, VoiceState::Decay);
    }
    let held = next_envelope(v, p, 44100);
    assert_eq!(held.amplitude, level);
}

#[test]
fn sustain_follows_level_changes() {
    let mut p = AdsrParams { attack: 100, decay: 100, sustain: PARAM_ONE / 4, release: 100 };
    let mut v = Voice { state: VoiceState::Sustain, note: 40, amplitude: 0 };
    v = next_envelope(v, p, 48000);
    assert_eq!(v.amplitude, (PARAM_ONE / 4) as u64 * PARAM_TO_AMP);
    p.sustain = PARAM_ONE * 3 / 4;
    v = next_envelope(v, p, 48000);
    assert_eq!(v.state, VoiceState::Sustain);
    assert_eq!(v.amplitude, (PARAM_ONE * 3 / 4) as u64 * PARAM_TO_AMP);
}

#[test]
fn release_ends_off_and_slot_is_reused() {
    let mut dsp = engine();
    set(&mut dsp, Param::AmpAttack, 0);
    set(&mut dsp, Param::AmpRelease, 0);
    set(&mut dsp, Param::AmpSustainLevel, PARAM_ONE);
    dsp.note_on(50);
    for _ in 0..200 {
        render_one(&mut dsp);
    }
    assert_eq!(dsp.voice(0).state, VoiceState::Sustain);
    dsp.note_off(50);
    let mut last = dsp.voice(0).amplitude;
    let mut turned_off = false;
    for _ in 0..200 {
        render_one(&mut dsp);
        let v = dsp.voice(0);
        assert!(v.amplitude <= last);
        last = v.amplitude;
        if v.state == VoiceState::Off {
            assert_eq!(v.amplitude, 0);
            turned_off = true;
            break;
        }
    }
    assert!(turned_off);
    dsp.note_on(70);
    assert_eq!(dsp.voice(0).state, VoiceState::Attack);
    assert_eq!(dsp.voice(0).note, 70);
    assert_eq!(dsp.voice(0).amplitude, 0);
}

#[test]
fn second_note_on_keeps_one_voice() {
    let mut dsp = engine();
    dsp.note_on(60);
    dsp.note_on(60);
    assert_eq!(slots_playing(&dsp, 60), 1);
    assert_eq!(dsp.active_voice_count(), 1);
}

#[test]
fn retrigger_keeps_amplitude() {
    let mut dsp = engine();
    set(&mut dsp, Param::AmpAttack, PARAM_ONE);
    set(&mut dsp, Param::AmpDecay, PARAM_ONE);
    dsp.note_on(60);
    for _ in 0..10 {
        render_one(&mut dsp);
    }
    let before = dsp.voice(0).amplitude;
    assert!(before > 0);
    dsp.note_off(60);
    assert_eq!(dsp.voice(0).state, VoiceState::Release);
    dsp.note_on(60);
    assert_eq!(dsp.voice(0).state, VoiceState::Attack);
    assert_eq!(dsp.voice(0).amplitude, before);
}

#[test]
fn full_pool_drops_extra_note() {
    let mut dsp = engine();
    for n in 0..NUM_VOICES as u8 {
        dsp.note_on(40 + n);
    }
    assert_eq!(dsp.active_voice_count(), NUM_VOICES);
    let notes: Vec<u8> = (0..NUM_VOICES).map(|i| dsp.voice(i).note).collect();
    dsp.note_on(100);
    assert_eq!(dsp.active_voice_count(), NUM_VOICES);
    let after: Vec<u8> = (0..NUM_VOICES).map(|i| dsp.voice(i).note).collect();
    assert_eq!(notes, after);
    assert_eq!(slots_playing(&dsp, 100), 0);
}

#[test]
fn note_out_of_range_is_ignored() {
    let mut dsp = engine();
    dsp.note_on(128);
    assert_eq!(dsp.active_voice_count(), 0);
}

#[test]
fn note_off_of_silent_note_is_ignored() {
    let mut dsp = engine();
    dsp.note_on(61);
    dsp.note_off(62);
    assert_eq!(dsp.voice(0).state, VoiceState::Attack);
}

#[test]
fn whole_envelope_runs_through_each_phase_once() {
    let mut dsp = engine();
    assert_eq!(dsp.set_sample_rate(44100), Ok(()));
    set(&mut dsp, Param::AmpAttack, PARAM_ONE / 2);
    set(&mut dsp, Param::AmpDecay, PARAM_ONE / 2);
    set(&mut dsp, Param::AmpRelease, PARAM_ONE / 2);
    set(&mut dsp, Param::AmpSustainLevel, PARAM_ONE / 2);
    let mut seen = vec![dsp.voice(0).state];
    let record = |dsp: &PluginDsp, seen: &mut Vec<VoiceState>| {
        let s = dsp.voice(0).state;
        if *seen.last().unwrap() != s {
            seen.push(s);
        }
    };
    dsp.note_on(64);
    record(&dsp, &mut seen);
    // attack 0.5 s, decay up to 1 s: wait two seconds
    for _ in 0..88200 {
        render_one(&mut dsp);
        record(&dsp, &mut seen);
    }
    assert_eq!(dsp.voice(0).state, VoiceState::Sustain);
    dsp.note_off(64);
    record(&dsp, &mut seen);
    for _ in 0..44100 {
        render_one(&mut dsp);
        record(&dsp, &mut seen);
    }
    assert_eq!(
        seen,
        vec![
            VoiceState::Off,
            VoiceState::Attack,
            VoiceState::Decay,
            VoiceState::Sustain,
            VoiceState::Release,
            VoiceState::Off
        ]
    );
}

#[test]
fn only_zero_sample_rate_is_refused() {
    let mut dsp = engine();
    assert_eq!(dsp.set_sample_rate(0), Err(DspError::InvalidSampleRate));
    assert_eq!(dsp.sample_rate(), 44100);
    assert_eq!(dsp.set_sample_rate(1_000_000), Ok(()));
    assert_eq!(dsp.sample_rate(), 1_000_000);
    assert_eq!(dsp.set_sample_rate(u32::MAX), Ok(()));
    assert_eq!(dsp.sample_rate(), u32::MAX);
    assert_eq!(dsp.set_sample_rate(96000), Ok(()));
    assert_eq!(dsp.sample_rate(), 96000);
}

#[test]
fn midi_status_bytes_start_and_release_notes() {
    let mut dsp = engine();
    dsp.process_midi_event([144, 60, 100]);
    assert_eq!(dsp.voice(0).state, VoiceState::Attack);
    assert_eq!(dsp.voice(0).note, 60);
    dsp.process_midi_event([176, 60, 0]);
    assert_eq!(dsp.voice(0).state, VoiceState::Attack);
    dsp.process_midi_event([128, 60, 0]);
    assert_eq!(dsp.voice(0).state, VoiceState::Release);
}

#[test]
fn messages_apply_in_order_last_write_wins() {
    let mut dsp = engine();
    let idx = Param::ShapeMorph.index() as i32;
    let msgs = vec![
        StateUpdate::SetKnob(idx, 100),
        StateUpdate::NoteOn(60),
        StateUpdate::SetKnob(idx, 200),
        StateUpdate::NoteOff(60),
        StateUpdate::SetKnob(99, 5),
    ];
    let mut l: Vec<i32> = Vec::new();
    let mut r: Vec<i32> = Vec::new();
    dsp.process(&msgs, &mut l, &mut r);
    assert_eq!(dsp.parameter(idx), Some(200));
    assert_eq!(dsp.parameter(99), None);
    assert_eq!(dsp.voice(0).state, VoiceState::Release);
    assert_eq!(dsp.elapsed(), 0);
}

#[test]
fn parameter_values_are_clamped() {
    let mut dsp = engine();
    dsp.apply_update(StateUpdate::SetKnob(3, PARAM_ONE + 10));
    assert_eq!(dsp.parameter(3), Some(PARAM_ONE));
    dsp.apply_update(StateUpdate::SetKnob(-1, 7));
    assert_eq!(states_of(&dsp), vec![VoiceState::Off; NUM_VOICES]);
}

#[test]
fn silent_engine_renders_zero_and_advances_time() {
    let mut dsp = engine();
    let mut l = vec![5i32; 8];
    let mut r = vec![5i32; 8];
    dsp.process(&Vec::new(), &mut l, &mut r);
    assert_eq!(l, vec![0; 8]);
    assert_eq!(r, vec![0; 8]);
    assert_eq!(dsp.elapsed(), 8);
}

#[test]
fn full_voice_renders_table_sample_scaled() {
    let mut dsp = engine();
    set(&mut dsp, Param::AmpAttack, 0);
    set(&mut dsp, Param::AmpSustainLevel, PARAM_ONE);
    set(&mut dsp, Param::WaveTableAmp, PARAM_ONE);
    set(&mut dsp, Param::ShapeMorph, 0);
    dsp.note_on(69);
    // the shortest attack at 44.1 kHz is 44 samples
    for _ in 0..44 {
        render_one(&mut dsp);
    }
    assert_eq!(dsp.voice(0).state, VoiceState::Decay);
    assert_eq!(dsp.voice(0).amplitude, AMP_ONE);
    // the decay falls below the full sustain level at once, and the sustain then holds the
    // voice at full amplitude; frame 0 of the table is the reference square at full scale
    render_one(&mut dsp);
    assert_eq!(dsp.voice(0).state, VoiceState::Sustain);
    let (l, r) = render_one(&mut dsp);
    assert_eq!(dsp.voice(0).amplitude, AMP_ONE);
    let expected = 10 * OUTPUT_ONE / 6;
    assert!(l == expected || l == -expected);
    assert_eq!(l, r);
}

#[test]
fn sustain_level_change_applies_from_first_sample_of_block() {
    let mut dsp = engine();
    set(&mut dsp, Param::AmpAttack, 0);
    set(&mut dsp, Param::AmpDecay, 0);
    set(&mut dsp, Param::AmpSustainLevel, PARAM_ONE / 2);
    dsp.note_on(60);
    for _ in 0..300 {
        render_one(&mut dsp);
    }
    assert_eq!(dsp.voice(0).state, VoiceState::Sustain);
    let msgs = vec![StateUpdate::SetKnob(Param::AmpSustainLevel.index() as i32, PARAM_ONE / 5)];
    let mut l = vec![0i32; 16];
    let mut r = vec![0i32; 16];
    dsp.process(&msgs, &mut l, &mut r);
    assert_eq!(dsp.voice(0).state, VoiceState::Sustain);
    assert_eq!(dsp.voice(0).amplitude, (PARAM_ONE / 5) as u64 * PARAM_TO_AMP);
}

#[test]
fn engine_renders_at_very_high_rate() {
    let mut dsp = engine();
    assert_eq!(dsp.set_sample_rate(u32::MAX), Ok(()));
    set(&mut dsp, Param::AmpAttack, 0);
    set(&mut dsp, Param::WaveTableAmp, PARAM_ONE);
    dsp.note_on(69);
    for _ in 0..10 {
        render_one(&mut dsp);
    }
    assert_eq!(dsp.voice(0).state, VoiceState::Attack);
    assert!(dsp.voice(0).amplitude > 0);
}
