use midi_tui::midi::{
    control_target, get_cc_name, keyboard_key_to_note, parse_midi_message, pitch_to_name, CcTarget,
    MidiCommand, MidiRecordEvent,
};

#[test]
fn test_pitch_to_name() {
    assert_eq!(pitch_to_name(60), "C4");
    assert_eq!(pitch_to_name(69), "A4");
    assert_eq!(pitch_to_name(72), "C5");
    assert_eq!(pitch_to_name(21), "A0");
    assert_eq!(pitch_to_name(70), "A#4");
}

#[test]
fn test_keyboard_key_to_note() {
    assert_eq!(keyboard_key_to_note('a'), Some(60));
    assert_eq!(keyboard_key_to_note('s'), Some(62));
    assert_eq!(keyboard_key_to_note('w'), Some(61));
    assert_eq!(keyboard_key_to_note('x'), None);
    assert_eq!(keyboard_key_to_note(';'), Some(76));
}

#[test]
fn test_get_cc_name() {
    assert_eq!(get_cc_name(7), "Volume Fader");
    assert_eq!(get_cc_name(10), "Stereo Pan");
    assert_eq!(get_cc_name(74), "Filter Cutoff (Freq)");
    assert_eq!(get_cc_name(99), "General Purpose Controller");
}

#[test]
fn pitch_names_at_the_ends_of_the_range() {
    assert_eq!(pitch_to_name(0), "C-1");
    assert_eq!(pitch_to_name(11), "B-1");
    assert_eq!(pitch_to_name(12), "C0");
    assert_eq!(pitch_to_name(127), "G9");
}

#[test]
fn every_keyboard_key_plays_a_distinct_note() {
    let keys = ['a', 'w', 's', 'e', 'd', 'f', 't', 'g', 'y', 'h', 'u', 'j', 'k', 'o', 'l', 'p', ';'];
    let notes: Vec<u8> = keys.iter().map(|&c| keyboard_key_to_note(c).unwrap()).collect();
    assert_eq!(notes, (60u8..=76).collect::<Vec<u8>>());
    assert_eq!(keyboard_key_to_note('A'), None);
    assert_eq!(keyboard_key_to_note('1'), None);
}

#[test]
fn controllers_are_wired_to_their_parameters() {
    assert_eq!(control_target(7), CcTarget::Volume);
    assert_eq!(control_target(10), CcTarget::Pan);
    assert_eq!(control_target(71), CcTarget::FilterResonance);
    assert_eq!(control_target(72), CcTarget::Release);
    assert_eq!(control_target(73), CcTarget::Attack);
    assert_eq!(control_target(74), CcTarget::FilterCutoff);
    assert_eq!(control_target(75), CcTarget::Sustain);
    assert_eq!(control_target(79), CcTarget::Decay);
    assert_eq!(control_target(1), CcTarget::Unmapped);
    assert_eq!(get_cc_name(1), "Modulation Wheel");
}

#[test]
fn note_on_message_is_decoded() {
    let d = parse_midi_message(&[0x91, 64, 100]).unwrap();
    assert_eq!(d.command, MidiCommand::NoteOn { track: 1, note: 64, velocity: 100 });
    assert_eq!(d.record, MidiRecordEvent::NoteOn { note: 64, velocity: 100 });
    assert_eq!(d.log, "Note ON: E4 (MIDI Note 64, Velocity 100)");
}

#[test]
fn note_on_with_zero_velocity_is_a_note_off() {
    let on = parse_midi_message(&[0x90, 60, 0]).unwrap();
    let off = parse_midi_message(&[0x80, 60, 55]).unwrap();
    assert_eq!(on.command, MidiCommand::NoteOff { track: 0, note: 60 });
    assert_eq!(on.command, off.command);
    assert_eq!(on.record, off.record);
    assert_eq!(on.log, "Note OFF: C4 (MIDI Note 60)");
    assert_eq!(on.log, off.log);
}

#[test]
fn high_channels_play_on_the_last_track() {
    let d = parse_midi_message(&[0x8F, 40]).unwrap();
    assert_eq!(d.command, MidiCommand::NoteOff { track: 3, note: 40 });
    let d = parse_midi_message(&[0x93, 40, 1]).unwrap();
    assert_eq!(d.command, MidiCommand::NoteOn { track: 3, note: 40, velocity: 1 });
    let d = parse_midi_message(&[0x92, 40, 1]).unwrap();
    assert_eq!(d.command, MidiCommand::NoteOn { track: 2, note: 40, velocity: 1 });
}

#[test]
fn control_change_is_decoded_and_logged() {
    let d = parse_midi_message(&[0xB0, 74, 127]).unwrap();
    assert_eq!(
        d.command,
        MidiCommand::ControlChange { track: 0, controller: 74, value: 127, target: CcTarget::FilterCutoff }
    );
    assert_eq!(d.record, MidiRecordEvent::ControlChange { controller: 74, value: 127 });
    assert_eq!(d.log, "Control Change: CC 74 (Filter Cutoff (Freq)) = 127");
}

#[test]
fn short_or_unknown_messages_are_ignored() {
    assert!(parse_midi_message(&[]).is_none());
    assert!(parse_midi_message(&[0x90, 60]).is_none());
    assert!(parse_midi_message(&[0x80]).is_none());
    assert!(parse_midi_message(&[0xB0, 7]).is_none());
    assert!(parse_midi_message(&[0xE0, 0, 64]).is_none());
    assert!(parse_midi_message(&[0xF8]).is_none());
}
