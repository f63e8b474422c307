use midi_tui::synth::{
    delay_read_index, drum_type_for_note, next_instrument_type, next_waveform, track_audible, DrumType,
    EnvelopeState, InstrumentType, Waveform,
};
use midi_tui::visualizer::VisualizerBuffer;

#[test]
fn test_frequency_conversion() {
    let freq_c4 = 440.0 * 2.0f32.powf((60.0 - 69.0) / 12.0);
    assert!((freq_c4 - 261.63).abs() < 0.1);

    let freq_a4 = 440.0 * 2.0f32.powf((69.0 - 69.0) / 12.0);
    assert_eq!(freq_a4, 440.0);
}

#[test]
fn instrument_types_cycle_both_ways() {
    let order = [
        InstrumentType::Subtractive,
        InstrumentType::Fm,
        InstrumentType::Plucked,
        InstrumentType::Drum,
        InstrumentType::Additive,
        InstrumentType::Supersaw,
    ];
    for i in 0..6 {
        assert_eq!(next_instrument_type(order[i], true), order[(i + 1) % 6]);
        assert_eq!(next_instrument_type(order[i], false), order[(i + 5) % 6]);
    }
}

#[test]
fn waveforms_cycle_both_ways() {
    assert_eq!(next_waveform(Waveform::Sine, true), Waveform::Square);
    assert_eq!(next_waveform(Waveform::Triangle, true), Waveform::Sine);
    assert_eq!(next_waveform(Waveform::Sine, false), Waveform::Triangle);
    assert_eq!(next_waveform(Waveform::Saw, false), Waveform::Square);
}

#[test]
fn drum_notes_pick_their_sound() {
    assert_eq!(drum_type_for_note(36), DrumType::Kick);
    assert_eq!(drum_type_for_note(38), DrumType::Snare);
    assert_eq!(drum_type_for_note(42), DrumType::HiHat);
    assert_eq!(drum_type_for_note(60), DrumType::Kick);
    assert_eq!(drum_type_for_note(64), DrumType::Kick);
    assert_eq!(drum_type_for_note(65), DrumType::Snare);
    assert_eq!(drum_type_for_note(69), DrumType::Snare);
    assert_eq!(drum_type_for_note(70), DrumType::HiHat);
    assert_eq!(drum_type_for_note(71), DrumType::HiHat);
}

#[test]
fn envelope_goes_through_its_stages() {
    let mut s = EnvelopeState::Attack;
    s = s.advance(false);
    assert_eq!(s, EnvelopeState::Attack);
    s = s.advance(true);
    assert_eq!(s, EnvelopeState::Decay);
    s = s.advance(true);
    assert_eq!(s, EnvelopeState::Sustain);
    s = s.advance(true);
    assert_eq!(s, EnvelopeState::Sustain);
    assert!(!s.is_idle());
    assert_eq!(EnvelopeState::Release.advance(false), EnvelopeState::Release);
    assert_eq!(EnvelopeState::Release.advance(true), EnvelopeState::Idle);
    assert!(EnvelopeState::Idle.advance(true).is_idle());
}

#[test]
fn solo_and_mute_decide_what_is_heard() {
    assert!(track_audible(false, false, false));
    assert!(!track_audible(false, true, true));
    assert!(track_audible(true, true, false));
    assert!(!track_audible(true, false, false));
    assert!(!track_audible(true, true, true));
}

#[test]
fn delay_reads_behind_the_write_position() {
    assert_eq!(delay_read_index(10, 100, 4), 6);
    assert_eq!(delay_read_index(2, 100, 4), 98);
    assert_eq!(delay_read_index(0, 8, 8), 0);
}

#[test]
fn visualizer_keeps_the_latest_samples_in_order() {
    let mut buf = VisualizerBuffer::new(4, 0i32);
    assert_eq!(buf.get_samples(), vec![0, 0, 0, 0]);
    for s in 1..=6 {
        buf.push(s);
    }
    assert_eq!(buf.get_samples(), vec![3, 4, 5, 6]);
    assert_eq!(buf.write_ptr, 2);
    let mut three = VisualizerBuffer::new(3, 0.0f32);
    for s in [1.0, 2.0, 3.0, 4.0] {
        three.push(s);
    }
    assert_eq!(three.get_samples(), vec![2.0, 3.0, 4.0]);
    let mut empty = VisualizerBuffer::new(0, 0.0f32);
    empty.push(1.0);
    assert!(empty.get_samples().is_empty());
}
