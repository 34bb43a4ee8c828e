use machine_elf::editor_state::InterfaceState;
use machine_elf::params::{param_from_index, parameter_name, Param, ParameterStore, StateUpdate};
use machine_elf::wave_math::{
    generate_one_cycle_square, generate_pulse_wave, generate_sawtooth_wave, generate_square_wave,
    generate_triangle_wave, generate_white_noise, lfo, midi_pitch_to_freq, parameter_to_u8,
    phase_shifted_time, scale_to_range, white_noise_from, NoiseSource, FREQ_ONE, SAMPLE_ONE,
};
use machine_elf::wave_table::{
    frame_index, sample_index, StereoWave, Wavetable, FRAME_COUNT, TABLE_PEAK, WAVE_SIZE,
};
use machine_elf::PARAM_ONE;

fn sine_cycle() -> Vec<i32> {
    (0..WAVE_SIZE)
        .map(|n| {
            let t = -1.0f64 + 4.0 * n as f64 / 256.0;
            let v = ((t * std::f64::consts::TAU).sin() * 32768.0).round() as i32;
            v.clamp(-32768, 32768)
        })
        .collect()
}

#[test]
fn a4_is_440_hz_and_octaves_double() {
    assert_eq!(midi_pitch_to_freq(69), 440 * FREQ_ONE);
    assert_eq!(midi_pitch_to_freq(57), 220 * FREQ_ONE);
    assert_eq!(midi_pitch_to_freq(81), 880 * FREQ_ONE);
    assert_eq!(midi_pitch_to_freq(60), 535809 * 32);
    assert_eq!(midi_pitch_to_freq(127), 2 * midi_pitch_to_freq(115));
    // middle C within a hundredth of a hertz of 261.63
    let c4 = midi_pitch_to_freq(60) as f64 / FREQ_ONE as f64;
    assert!((c4 - 261.6256).abs() < 0.01);
}

#[test]
fn square_wave_halves() {
    // 1 Hz at a rate of 4: samples 0 and 1 in the first half, 2 and 3 in the second
    let f = FREQ_ONE;
    assert_eq!(generate_square_wave(0, 4, f, 100), 100);
    assert_eq!(generate_square_wave(1, 4, f, 100), 100);
    assert_eq!(generate_square_wave(2, 4, f, 100), -100);
    assert_eq!(generate_square_wave(3, 4, f, 100), -100);
    assert_eq!(generate_square_wave(4, 4, f, 100), 100);
}

#[test]
fn pulse_wave_width() {
    let f = FREQ_ONE;
    let quarter = PARAM_ONE / 4;
    assert_eq!(generate_pulse_wave(0, 8, f, quarter, 7), 7);
    assert_eq!(generate_pulse_wave(1, 8, f, quarter, 7), 7);
    assert_eq!(generate_pulse_wave(2, 8, f, quarter, 7), -7);
    assert_eq!(generate_pulse_wave(7, 8, f, quarter, 7), -7);
}

#[test]
fn triangle_wave_values() {
    let f = FREQ_ONE;
    assert_eq!(generate_triangle_wave(0, 8, f, 80), 0);
    assert_eq!(generate_triangle_wave(2, 8, f, 80), 40);
    assert_eq!(generate_triangle_wave(4, 8, f, 80), 80);
    assert_eq!(generate_triangle_wave(6, 8, f, 80), 40);
}

#[test]
fn sawtooth_wave_values() {
    let f = FREQ_ONE;
    assert_eq!(generate_sawtooth_wave(0, 8, f, 0, 80), -80);
    assert_eq!(generate_sawtooth_wave(2, 8, f, 0, 80), -40);
    assert_eq!(generate_sawtooth_wave(4, 8, f, 0, 80), 0);
    assert_eq!(generate_sawtooth_wave(6, 8, f, 0, 80), 40);
    // a dead zone of half the period silences the first half
    assert_eq!(generate_sawtooth_wave(2, 8, f, PARAM_ONE / 2, 80), 0);
    assert_eq!(generate_sawtooth_wave(6, 8, f, PARAM_ONE / 2, 80), 40);
}

#[test]
fn phase_shift_moves_time() {
    // a quarter period of 1 Hz at 1000 samples per second is 250 samples
    assert_eq!(phase_shifted_time(10, 1000, FREQ_ONE, PARAM_ONE / 4), 260);
    assert_eq!(phase_shifted_time(10, 1000, FREQ_ONE, 0), 10);
}

#[test]
fn scale_to_range_rounds_toward_zero() {
    assert_eq!(scale_to_range(12, 1, 6), 2);
    assert_eq!(scale_to_range(-7, 1, 6), -1);
    assert_eq!(scale_to_range(-12, 1, 6), -2);
    assert_eq!(scale_to_range(5, 3, 3), 5);
}

#[test]
fn parameter_to_u8_rounds_and_saturates() {
    assert_eq!(parameter_to_u8(PARAM_ONE / 2, 10), 5);
    assert_eq!(parameter_to_u8(PARAM_ONE / 4, 2), 1);
    assert_eq!(parameter_to_u8(PARAM_ONE, 300), 255);
    assert_eq!(parameter_to_u8(PARAM_ONE, -4), 0);
    assert_eq!(parameter_to_u8(0, 4), 0);
}

#[test]
fn white_noise_from_draw() {
    assert_eq!(white_noise_from(0, 1000), -500);
    assert_eq!(white_noise_from(0x8000_0000, 1000), 0);
    assert_eq!(white_noise_from(u32::MAX, 1000), 499);
}

#[test]
fn white_noise_stays_within_half_amplitude() {
    let mut source = NoiseSource::new(7);
    for _ in 0..100_000 {
        let n = generate_white_noise(&mut source, 1000);
        assert!((-500..=500).contains(&n));
    }
}

#[test]
fn reference_square_switches_after_time_zero() {
    assert_eq!(generate_one_cycle_square(0), -SAMPLE_ONE);
    assert_eq!(generate_one_cycle_square(1), SAMPLE_ONE);
    assert_eq!(generate_one_cycle_square(-5), -SAMPLE_ONE);
}

#[test]
fn morph_of_one_selects_last_frame() {
    assert_eq!(frame_index(PARAM_ONE), FRAME_COUNT - 1);
    assert_eq!(frame_index(0), 0);
    assert_eq!(frame_index(PARAM_ONE / 2), 128);
    assert_eq!(frame_index(PARAM_ONE + PARAM_ONE / 2), 128);
}

#[test]
fn table_lookup_is_periodic() {
    let table = Wavetable::default(&sine_cycle());
    // 441 Hz at 44.1 kHz, 16 table samples per cycle: the table repeats every 1600 samples
    let f = 441 * FREQ_ONE;
    for t in [0u64, 1, 17, 999, 123_456] {
        for morph in [0u32, PARAM_ONE / 3, PARAM_ONE] {
            assert_eq!(
                table.get_wave(t, 44100, f, morph, 1000),
                table.get_wave(t + 1600, 44100, f, morph, 1000)
            );
        }
    }
    assert_eq!(sample_index(0, 44100, f), 0);
    assert_eq!(sample_index(1600, 44100, f), 0);
    assert_eq!(sample_index(100, 44100, f), 16);
}

#[test]
fn table_frames_blend_square_into_sine() {
    let sine = sine_cycle();
    let table = Wavetable::default(&sine);
    // frame 0 is the square alone, weighted by the frame count
    let (l, r) = table.get_wave(0, 44100, FREQ_ONE, 0, 1);
    assert_eq!(l, -(TABLE_PEAK as i64));
    assert_eq!(r, l);
    // the last frame is almost all sine
    let t = 3u64;
    let idx = sample_index(t, 44100, 44100 * FREQ_ONE / 16) as usize;
    assert_eq!(idx, 3);
    let (l, _) = table.get_wave(t, 44100, 44100 * FREQ_ONE / 16, PARAM_ONE, 2);
    assert_eq!(l, 2 * (sine[3] as i64 * 255 - 32768));
}

#[test]
fn stereo_wave_frames() {
    let sine = sine_cycle();
    let w = StereoWave::sin_to_square(FRAME_COUNT as u32, &sine);
    let t = Wavetable::default(&sine);
    let (l, _) = t.get_wave(0, 44100, FREQ_ONE, 0, 3);
    assert_eq!(l, -3 * TABLE_PEAK as i64);
    let _ = w;
    let _ = StereoWave::default(&sine);
}

#[test]
fn parameter_names_and_slots() {
    assert_eq!(parameter_name(Param::AmpAttack.index() as i32), "Attack");
    assert_eq!(parameter_name(Param::ShapeMorph.index() as i32), "Shape morph");
    assert_eq!(parameter_name(0), "Unknown");
    assert_eq!(parameter_name(-3), "Unknown");
    assert_eq!(Param::AmpAttack.index(), 16);
    assert_eq!(param_from_index(16), Some(Param::AmpAttack));
    assert_eq!(param_from_index(35), Some(Param::ShapeMorph));
    assert_eq!(param_from_index(36), None);
}

#[test]
fn parameter_store_records_and_forwards() {
    let mut store = ParameterStore::new();
    assert_eq!(store.get_parameter(0), Some(PARAM_ONE));
    assert_eq!(store.get_parameter(8), Some(13107));
    assert_eq!(store.get_parameter(20), Some(0));
    assert_eq!(store.get_parameter(40), None);
    assert_eq!(store.set_parameter(5, 1234), Some(StateUpdate::SetKnob(5, 1234)));
    assert_eq!(store.get_parameter(5), Some(1234));
    assert_eq!(store.set_parameter(5, PARAM_ONE * 2), Some(StateUpdate::SetKnob(5, PARAM_ONE)));
    assert_eq!(store.set_parameter(36, 1), None);
}

#[test]
fn editor_state_follows_displayed_controls() {
    let mut s = InterfaceState::new();
    assert_eq!(s.note, None);
    s.react_to_control_event(StateUpdate::SetKnob(Param::WaveTableAmp.index() as i32, 77));
    s.react_to_control_event(StateUpdate::SetKnob(Param::ShapeMorph.index() as i32, 99));
    s.react_to_control_event(StateUpdate::SetKnob(Param::AmpAttack.index() as i32, 55));
    assert_eq!(s.amplitude_value, 77);
    assert_eq!(s.morph_value, 99);
    assert_eq!(s.rotation_x_value, 0);
    s.react_to_control_event(StateUpdate::NoteOn(64));
    assert_eq!(s.note, Some(64));
    s.react_to_control_event(StateUpdate::NoteOff(65));
    assert_eq!(s.note, Some(65));
}

#[test]
fn noise_source_is_not_constant() {
    let mut source = NoiseSource::new(1);
    let first = generate_white_noise(&mut source, 1 << 30);
    let differs = (0..100).any(|_| generate_white_noise(&mut source, 1 << 30) != first);
    assert!(differs);
}

#[test]
fn lfo_dispatches_on_shape() {
    let f = FREQ_ONE;
    assert_eq!(lfo(0, 3, 8, f, 80, -17), -17);
    assert_eq!(lfo(1, 6, 8, f, 80, 0), -80);
    assert_eq!(lfo(2, 2, 8, f, 80, 0), 40);
    assert_eq!(lfo(3, 6, 8, f, 80, 0), 40);
    assert_eq!(lfo(9, 6, 8, f, 80, 5), 0);
}

#[test]
fn table_lookup_repeats_after_several_periods() {
    let table = Wavetable::default(&sine_cycle());
    let f = 441 * FREQ_ONE;
    for k in 1..5u64 {
        assert_eq!(table.get_wave(37, 44100, f, PARAM_ONE, 9), table.get_wave(37 + 1600 * k, 44100, f, PARAM_ONE, 9));
    }
}

#[test]
fn triangle_accepts_high_rates() {
    assert_eq!(generate_triangle_wave(500_000, 1_000_000, FREQ_ONE, 80), 80);
}
