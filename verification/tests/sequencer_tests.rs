use midi_tui::sequencer::{
    find_note_index, ticks_to_advance, without_note, Note, Sequencer, SynthCommand, Track, MAX_CATCH_UP_TICKS,
};

#[test]
fn test_sequencer_new() {
    let seq = Sequencer::new();
    assert_eq!(seq.tracks.len(), 4);
    assert_eq!(seq.bpm, 120);
    assert_eq!(seq.current_tick, 0);
    assert_eq!(seq.max_ticks, 64);
    assert_eq!(seq.is_playing, false);
    assert_eq!(seq.is_recording, false);
    assert_eq!(seq.ticks_per_beat, 4);
    assert_eq!(seq.snap_division, 1);
}

#[test]
fn test_add_and_remove_notes() {
    let mut seq = Sequencer::new();

    assert_eq!(seq.tracks[0].notes.len(), 0);

    seq.add_note(0, 60, 0, 4, 80);
    assert_eq!(seq.tracks[0].notes.len(), 1);
    assert_eq!(seq.tracks[0].notes[0], Note { pitch: 60, velocity: 80, start_tick: 0, duration_ticks: 4 });

    assert!(seq.get_note_at(0, 60, 0).is_some());
    assert!(seq.get_note_at(0, 60, 2).is_some());
    assert!(seq.get_note_at(0, 60, 4).is_none());

    seq.add_note(0, 60, 0, 8, 100);
    assert_eq!(seq.tracks[0].notes.len(), 1);
    assert_eq!(seq.tracks[0].notes[0].duration_ticks, 8);
    assert_eq!(seq.tracks[0].notes[0].velocity, 100);

    let removed = seq.remove_note_at(0, 60, 4);
    assert!(removed);
    assert_eq!(seq.tracks[0].notes.len(), 0);
}

#[test]
fn test_tick_advancement() {
    let mut seq = Sequencer::new();
    seq.current_tick = 63;
    seq.is_playing = true;

    seq.current_tick = (seq.current_tick + 1) % seq.max_ticks;
    assert_eq!(seq.current_tick, 0);
}

#[test]
fn new_tracks_are_named_and_coloured() {
    let seq = Sequencer::new();
    let names: Vec<&str> = seq.tracks.iter().map(|t| t.name.as_str()).collect();
    assert_eq!(names, vec!["Track 1: Lead", "Track 2: Bass", "Track 3: Pad", "Track 4: Drums"]);
    let hues: Vec<u16> = seq.tracks.iter().map(|t| t.color_hue).collect();
    assert_eq!(hues, vec![280, 200, 120, 350]);
    assert_eq!(seq.loop_start, 0);
    assert_eq!(seq.loop_end, 64);
    let t = Track::new("Solo", 7);
    assert_eq!(t.name, "Solo");
    assert!(t.notes.is_empty());
    assert_eq!(t.color_hue, 7);
}

#[test]
fn removed_note_is_not_found_again() {
    let mut seq = Sequencer::new();
    seq.add_note(1, 50, 2, 3, 90);
    seq.add_note(1, 52, 2, 3, 90);
    assert!(seq.remove_note_at(1, 50, 3));
    assert!(seq.get_note_at(1, 50, 3).is_none());
    assert!(!seq.remove_note_at(1, 50, 3));
    // the other pitch is left where it was
    assert_eq!(seq.get_note_at(1, 52, 3), Some(&Note { pitch: 52, velocity: 90, start_tick: 2, duration_ticks: 3 }));
}

#[test]
fn added_note_replaces_notes_sounding_at_its_start() {
    let mut seq = Sequencer::new();
    seq.add_note(0, 60, 0, 8, 70);
    seq.add_note(0, 62, 4, 1, 70);
    seq.add_note(0, 60, 4, 2, 99);
    // the long C4 that sounded at tick 4 is gone; the new one goes last
    assert_eq!(
        seq.tracks[0].notes,
        vec![
            Note { pitch: 62, velocity: 70, start_tick: 4, duration_ticks: 1 },
            Note { pitch: 60, velocity: 99, start_tick: 4, duration_ticks: 2 },
        ]
    );
    assert_eq!(seq.get_note_at(0, 60, 5).unwrap().velocity, 99);
    assert!(seq.get_note_at(0, 60, 6).is_none());
}

#[test]
fn edits_outside_the_tracks_change_nothing() {
    let mut seq = Sequencer::new();
    seq.add_note(9, 60, 0, 4, 80);
    assert!(seq.tracks.iter().all(|t| t.notes.is_empty()));
    assert!(!seq.remove_note_at(4, 60, 0));
    assert!(seq.get_note_at(4, 60, 0).is_none());
}

#[test]
fn note_search_finds_the_first_sounding_note() {
    let notes = vec![
        Note { pitch: 60, velocity: 1, start_tick: 0, duration_ticks: 2 },
        Note { pitch: 61, velocity: 2, start_tick: 0, duration_ticks: 8 },
        Note { pitch: 61, velocity: 3, start_tick: 1, duration_ticks: 8 },
    ];
    assert_eq!(find_note_index(&notes, 61, 4), Some(1));
    assert_eq!(find_note_index(&notes, 60, 2), None);
    let (kept, removed) = without_note(&notes, 61, 4);
    assert!(removed);
    assert_eq!(kept, vec![notes[0]]);
    let (kept, removed) = without_note(&notes, 62, 0);
    assert!(!removed);
    assert_eq!(kept, notes);
}

#[test]
fn playback_catches_up_at_most_four_steps() {
    assert_eq!(ticks_to_advance(125_000, 125_000), 1);
    assert_eq!(ticks_to_advance(380_000, 125_000), 3);
    assert_eq!(ticks_to_advance(10_000_000, 125_000), 4);
    assert_eq!(ticks_to_advance(100, 125_000), 0);
    // the step count is taken in 32 bits first, as a wall clock jump would give it
    assert_eq!(ticks_to_advance(1u128 << 32, 1), 0);
    assert_eq!(MAX_CATCH_UP_TICKS, 4);
}

#[test]
fn advancing_starts_and_stops_notes() {
    let mut seq = Sequencer::new();
    seq.add_note(0, 60, 1, 2, 100);
    seq.add_note(2, 48, 1, 1, 50);
    let cmds = seq.advance_tick();
    assert_eq!(seq.current_tick, 1);
    assert_eq!(
        cmds,
        vec![
            SynthCommand::NoteOn { track: 0, pitch: 60, velocity: 100 },
            SynthCommand::NoteOn { track: 2, pitch: 48, velocity: 50 },
        ]
    );
    let cmds = seq.advance_tick();
    assert_eq!(seq.current_tick, 2);
    assert_eq!(cmds, vec![SynthCommand::NoteOff { track: 2, pitch: 48 }]);
    let cmds = seq.advance_tick();
    assert_eq!(cmds, vec![SynthCommand::NoteOff { track: 0, pitch: 60 }]);
    let cmds = seq.advance_tick();
    assert!(cmds.is_empty());
}

#[test]
fn advancing_past_the_loop_end_wraps_to_the_loop_start() {
    let mut seq = Sequencer::new();
    seq.add_note(1, 40, 0, 2, 90);
    seq.add_note(1, 41, 60, 8, 90);
    seq.current_tick = 63;
    let cmds = seq.advance_tick();
    assert_eq!(seq.current_tick, 0);
    assert_eq!(
        cmds,
        vec![
            SynthCommand::AllNotesOff,
            SynthCommand::NoteOff { track: 1, pitch: 41 },
            SynthCommand::NoteOn { track: 1, pitch: 40, velocity: 90 },
        ]
    );
    seq.loop_start = 8;
    seq.loop_end = 10;
    seq.current_tick = 9;
    seq.advance_tick();
    assert_eq!(seq.current_tick, 8);
}
