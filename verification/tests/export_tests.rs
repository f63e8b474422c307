use midi_tui::midi_file::{
    collect_note_events, sort_by_tick, MidiExportError, NoteEvent, SmfEvent, SmfEventKind,
};
use midi_tui::sequencer::{Note, Sequencer};

fn on(tick: u32, pitch: u8, velocity: u8) -> NoteEvent {
    NoteEvent { tick, pitch, velocity, is_on: true }
}

fn off(tick: u32, pitch: u8) -> NoteEvent {
    NoteEvent { tick, pitch, velocity: 0, is_on: false }
}

#[test]
fn note_events_are_at_48_midi_ticks_per_step() {
    let notes = vec![
        Note { pitch: 60, velocity: 80, start_tick: 2, duration_ticks: 4 },
        Note { pitch: 64, velocity: 70, start_tick: 0, duration_ticks: 1 },
    ];
    assert_eq!(collect_note_events(&notes), vec![on(96, 60, 80), off(288, 60), on(0, 64, 70), off(48, 64)]);
}

#[test]
fn sorting_keeps_the_order_of_events_at_the_same_tick() {
    let events = vec![on(96, 60, 80), off(48, 61), on(48, 62, 1), off(0, 63), on(48, 64, 2)];
    assert_eq!(
        sort_by_tick(&events),
        vec![off(0, 63), off(48, 61), on(48, 62, 1), on(48, 64, 2), on(96, 60, 80)]
    );
    assert!(sort_by_tick(&Vec::new()).is_empty());
}

#[test]
fn exported_tracks_hold_name_tempo_notes_and_end() {
    let mut seq = Sequencer::new();
    seq.add_note(0, 60, 1, 2, 100);
    seq.add_note(1, 40, 0, 1, 90);
    let tracks = seq.export_tracks(500_000);
    assert_eq!(tracks.len(), 4);
    assert_eq!(
        tracks[0],
        vec![
            SmfEvent { delta: 0, kind: SmfEventKind::TrackName(b"Track 1: Lead".to_vec()) },
            SmfEvent { delta: 0, kind: SmfEventKind::Tempo(500_000) },
            SmfEvent { delta: 48, kind: SmfEventKind::NoteOn { channel: 0, key: 60, vel: 100 } },
            SmfEvent { delta: 96, kind: SmfEventKind::NoteOff { channel: 0, key: 60, vel: 0 } },
            SmfEvent { delta: 0, kind: SmfEventKind::EndOfTrack },
        ]
    );
    assert_eq!(
        tracks[1],
        vec![
            SmfEvent { delta: 0, kind: SmfEventKind::TrackName(b"Track 2: Bass".to_vec()) },
            SmfEvent { delta: 0, kind: SmfEventKind::NoteOn { channel: 1, key: 40, vel: 90 } },
            SmfEvent { delta: 48, kind: SmfEventKind::NoteOff { channel: 1, key: 40, vel: 0 } },
            SmfEvent { delta: 0, kind: SmfEventKind::EndOfTrack },
        ]
    );
    assert_eq!(tracks[3].len(), 2);
}

#[test]
fn the_tempo_is_written_as_given_on_the_first_track() {
    let seq = Sequencer::new();
    let tracks = seq.export_tracks(8_571_429);
    assert_eq!(tracks[0][1], SmfEvent { delta: 0, kind: SmfEventKind::Tempo(8_571_429) });
    assert!(tracks[1].iter().all(|e| !matches!(e.kind, SmfEventKind::Tempo(_))));
}

#[test]
fn exported_file_is_a_standard_midi_file() {
    let mut seq = Sequencer::new();
    seq.add_note(0, 60, 0, 4, 100);
    let bytes: Result<Vec<u8>, MidiExportError> = seq.export_to_midi(500_000);
    let bytes = bytes.unwrap();
    // header chunk: length 6, format 1 (parallel), 4 tracks, 192 ticks per quarter note
    assert_eq!(&bytes[0..14], &[b'M', b'T', b'h', b'd', 0, 0, 0, 6, 0, 1, 0, 4, 0, 192]);
    assert_eq!(&bytes[14..18], b"MTrk");
    let chunks = bytes.windows(4).filter(|w| *w == b"MTrk").count();
    assert_eq!(chunks, 4);
    // the first track names itself
    assert!(bytes.windows(6).any(|w| w == [0xFF, 0x51, 0x03, 0x07, 0xA1, 0x20]));
    let name = b"Track 1: Lead";
    assert!(bytes.windows(name.len()).any(|w| w == name));
}
