use midi_tui::midi::MidiRecordEvent;
use midi_tui::names::{project_file_name_of, trim};
use midi_tui::sequencer::Note;
use midi_tui::synth::InstrumentType;
use midi_tui::ui::{ActiveTab, SynthFocusField};
use midi_tui::workspace::{
    AppAction, GridArea, KeyCode, KeyInput, MidiStatus, MixerChange, MouseButton, MouseInput, MouseKind,
    Workspace,
};

fn key(code: KeyCode) -> KeyInput {
    KeyInput { code, ctrl: false, shift: false, other_modifiers: false }
}

fn ch(c: char) -> KeyInput {
    key(KeyCode::Char(c))
}

fn ctrl(c: char) -> KeyInput {
    KeyInput { code: KeyCode::Char(c), ctrl: true, shift: false, other_modifiers: false }
}

fn shift(code: KeyCode) -> KeyInput {
    KeyInput { code, ctrl: false, shift: true, other_modifiers: false }
}

fn no_midi() -> MidiStatus {
    MidiStatus { port_count: 0, connected: false, selected_port: None }
}

fn press(w: &mut Workspace, k: KeyInput) -> (bool, Vec<AppAction>) {
    assert!(w.key_press_in_range(k, no_midi()));
    w.trigger_key_press(k, no_midi())
}

#[test]
fn digits_switch_tabs_and_four_rescans_ports() {
    let mut w = Workspace::new();
    assert_eq!(press(&mut w, ch('2')), (false, vec![]));
    assert_eq!(w.active_tab, ActiveTab::SynthEditor);
    assert_eq!(press(&mut w, ch('4')), (false, vec![AppAction::RefreshMidiPorts]));
    assert_eq!(w.active_tab, ActiveTab::Devices);
    assert_eq!(press(&mut w, ch('5')), (false, vec![]));
    assert_eq!(w.active_tab, ActiveTab::Help);
    assert_eq!(press(&mut w, ch('1')), (false, vec![]));
    assert_eq!(w.active_tab, ActiveTab::Sequencer);
}

#[test]
fn q_and_escape_quit() {
    let mut w = Workspace::new();
    assert_eq!(press(&mut w, ch('q')), (true, vec![]));
    assert_eq!(press(&mut w, key(KeyCode::Esc)), (true, vec![]));
}

#[test]
fn play_and_record_toggle_the_transport() {
    let mut w = Workspace::new();
    assert_eq!(press(&mut w, ch('p')), (false, vec![]));
    assert!(w.sequencer.is_playing);
    assert_eq!(w.modal_state.toast_message.as_deref(), Some("▶ PLAYBACK STARTED"));
    assert_eq!(w.modal_state.toast_ticks, 40);
    assert_eq!(press(&mut w, ch('R')), (false, vec![]));
    assert!(w.sequencer.is_recording);
    assert_eq!(w.modal_state.toast_message.as_deref(), Some("● RECORDING ARMED"));
    assert_eq!(press(&mut w, ch('P')), (false, vec![AppAction::AllNotesOff]));
    assert!(!w.sequencer.is_playing);
    assert!(!w.sequencer.is_recording);
    assert_eq!(w.modal_state.toast_message.as_deref(), Some("■ PLAYBACK STOPPED"));
    assert_eq!(press(&mut w, ch('r')), (false, vec![]));
    assert!(w.sequencer.is_playing && w.sequencer.is_recording);
    assert_eq!(press(&mut w, ch('r')), (false, vec![]));
    assert!(w.sequencer.is_playing && !w.sequencer.is_recording);
    assert_eq!(w.modal_state.toast_message.as_deref(), Some("○ RECORDING MUTED"));
}

#[test]
fn space_places_and_removes_a_note_under_the_cursor() {
    let mut w = Workspace::new();
    let (quit, acts) = press(&mut w, ch(' '));
    assert!(!quit);
    assert_eq!(acts, vec![AppAction::PreviewNote { track: 0, pitch: 60, hold_ms: 200, report_release: false }]);
    assert_eq!(w.sequencer.tracks[0].notes, vec![Note { pitch: 60, velocity: 100, start_tick: 0, duration_ticks: 4 }]);
    assert_eq!(press(&mut w, ch(' ')), (false, vec![]));
    assert!(w.sequencer.tracks[0].notes.is_empty());
    // outside the sequencer tab Space toggles playback
    press(&mut w, ch('3'));
    assert_eq!(press(&mut w, ch(' ')), (false, vec![]));
    assert!(w.sequencer.is_playing);
}

#[test]
fn control_keys_export_save_and_load() {
    let mut w = Workspace::new();
    assert_eq!(
        press(&mut w, ctrl('e')),
        (false, vec![AppAction::ExportMidi { file_name: "midi-tui-export.mid".to_string() }])
    );
    assert_eq!(press(&mut w, ctrl('o')), (false, vec![AppAction::ListProjects]));
    assert_eq!(press(&mut w, ctrl('s')), (false, vec![]));
    assert!(w.modal_state.show_save);
    assert_eq!(w.modal_state.save_input, "");
}

#[test]
fn save_dialog_takes_every_key() {
    let mut w = Workspace::new();
    press(&mut w, ctrl('s'));
    for c in [' ', 's', 'o', 'n', 'g', 'q'] {
        assert_eq!(press(&mut w, ch(c)), (false, vec![]));
    }
    assert_eq!(w.modal_state.save_input, " songq");
    press(&mut w, key(KeyCode::Backspace));
    assert_eq!(w.modal_state.save_input, " song");
    assert!(w.sequencer.tracks[0].notes.is_empty());
    assert_eq!(
        press(&mut w, key(KeyCode::Enter)),
        (false, vec![AppAction::SaveProject { file_name: "song.json".to_string() }])
    );
    assert!(w.modal_state.show_save);
    w.finish_save("song.json");
    assert!(!w.modal_state.show_save);
    assert_eq!(w.modal_state.toast_message.as_deref(), Some("✔ SAVED: song.json"));
}

#[test]
fn save_dialog_ignores_enter_on_an_empty_name_and_closes_on_escape() {
    let mut w = Workspace::new();
    press(&mut w, ctrl('s'));
    assert_eq!(press(&mut w, key(KeyCode::Enter)), (false, vec![]));
    press(&mut w, key(KeyCode::Backspace));
    assert_eq!(w.modal_state.save_input, "");
    press(&mut w, key(KeyCode::Esc));
    assert!(!w.modal_state.show_save);
}

#[test]
fn load_dialog_moves_round_the_list() {
    let mut w = Workspace::new();
    w.open_load_modal(vec!["a.json".to_string(), "b.json".to_string(), "c.json".to_string()]);
    assert!(w.modal_state.show_load);
    press(&mut w, key(KeyCode::Up));
    assert_eq!(w.modal_state.load_selected_idx, 2);
    press(&mut w, key(KeyCode::Down));
    assert_eq!(w.modal_state.load_selected_idx, 0);
    press(&mut w, key(KeyCode::Down));
    assert_eq!(
        press(&mut w, key(KeyCode::Enter)),
        (false, vec![AppAction::LoadProject { file_name: "b.json".to_string() }])
    );
    w.finish_load("b.json");
    assert!(!w.modal_state.show_load);
    assert_eq!(w.modal_state.toast_message.as_deref(), Some("✔ LOADED: b.json"));
}

#[test]
fn keyboard_keys_play_notes_and_record_while_playing() {
    let mut w = Workspace::new();
    assert_eq!(
        press(&mut w, ch('a')),
        (false, vec![AppAction::PreviewNote { track: 0, pitch: 60, hold_ms: 250, report_release: false }])
    );
    assert!(w.active_recorded_notes.is_empty());
    press(&mut w, ch('r'));
    w.sequencer.current_tick = 5;
    assert_eq!(
        press(&mut w, ch('d')),
        (false, vec![AppAction::PreviewNote { track: 0, pitch: 64, hold_ms: 250, report_release: true }])
    );
    assert_eq!(w.active_recorded_notes.get(&64), Some(&(5, 100)));
    w.sequencer.current_tick = 9;
    w.process_recording_events(vec![MidiRecordEvent::NoteOff { note: 64 }]);
    assert!(w.active_recorded_notes.is_empty());
    assert_eq!(w.sequencer.tracks[0].notes, vec![Note { pitch: 64, velocity: 100, start_tick: 5, duration_ticks: 4 }]);
}

#[test]
fn recorded_notes_last_at_least_one_tick() {
    let mut w = Workspace::new();
    w.piano_roll_state.active_track_idx = 2;
    w.sequencer.is_playing = true;
    w.sequencer.is_recording = true;
    w.sequencer.current_tick = 7;
    w.process_recording_events(vec![
        MidiRecordEvent::NoteOn { note: 50, velocity: 33 },
        MidiRecordEvent::ControlChange { controller: 7, value: 1 },
        MidiRecordEvent::NoteOff { note: 50 },
        MidiRecordEvent::NoteOff { note: 51 },
    ]);
    assert_eq!(w.sequencer.tracks[2].notes, vec![Note { pitch: 50, velocity: 33, start_tick: 7, duration_ticks: 1 }]);
    // not recording: note-ons are not held
    w.sequencer.is_recording = false;
    w.process_recording_events(vec![MidiRecordEvent::NoteOn { note: 52, velocity: 33 }]);
    assert!(w.active_recorded_notes.is_empty());
}

#[test]
fn piano_roll_keys_move_edit_and_select() {
    let mut w = Workspace::new();
    press(&mut w, ch(' '));
    assert_eq!(w.piano_roll_state.selected_note_idx, None);
    press(&mut w, key(KeyCode::Right));
    assert_eq!(w.piano_roll_state.cursor_tick, 1);
    assert_eq!(w.piano_roll_state.selected_note_idx, Some(0));
    press(&mut w, shift(KeyCode::Up));
    assert_eq!(w.sequencer.tracks[0].notes[0].pitch, 61);
    assert_eq!(w.piano_roll_state.cursor_pitch, 61);
    press(&mut w, shift(KeyCode::Right));
    assert_eq!(w.sequencer.tracks[0].notes[0].duration_ticks, 5);
    press(&mut w, shift(KeyCode::Left));
    assert_eq!(w.sequencer.tracks[0].notes[0].duration_ticks, 4);
    press(&mut w, key(KeyCode::Down));
    assert_eq!(w.piano_roll_state.cursor_pitch, 60);
    assert_eq!(w.piano_roll_state.selected_note_idx, None);
    press(&mut w, key(KeyCode::Up));
    press(&mut w, key(KeyCode::Delete));
    assert!(w.sequencer.tracks[0].notes.is_empty());
    assert_eq!(w.piano_roll_state.selected_note_idx, None);
}

#[test]
fn piano_roll_length_snap_and_tracks() {
    let mut w = Workspace::new();
    press(&mut w, key(KeyCode::Right));
    press(&mut w, key(KeyCode::Right));
    press(&mut w, key(KeyCode::Right));
    press(&mut w, ch('+'));
    assert_eq!(w.piano_roll_state.note_duration_default, 5);
    assert_eq!(w.modal_state.toast_message.as_deref(), Some("DEFAULT NOTE LENGTH: 5 TICKS"));
    press(&mut w, ch('-'));
    press(&mut w, ch('_'));
    assert_eq!(w.piano_roll_state.note_duration_default, 3);
    press(&mut w, ch('['));
    assert_eq!(w.sequencer.snap_division, 2);
    assert_eq!(w.piano_roll_state.cursor_tick, 2);
    assert_eq!(w.modal_state.toast_message.as_deref(), Some("GRID SNAP: 1/8"));
    press(&mut w, ch('['));
    press(&mut w, ch('['));
    press(&mut w, ch('['));
    press(&mut w, ch('['));
    assert_eq!(w.sequencer.snap_division, 16);
    assert_eq!(w.modal_state.toast_message.as_deref(), Some("GRID SNAP: 1 Bar"));
    press(&mut w, ch(']'));
    assert_eq!(w.sequencer.snap_division, 8);
    press(&mut w, key(KeyCode::Left));
    assert_eq!(w.piano_roll_state.cursor_tick, 0);
    press(&mut w, key(KeyCode::Tab));
    assert_eq!(w.piano_roll_state.active_track_idx, 1);
    press(&mut w, key(KeyCode::BackTab));
    press(&mut w, key(KeyCode::BackTab));
    assert_eq!(w.piano_roll_state.active_track_idx, 3);
}

#[test]
fn synth_editor_and_mixer_keys_ask_for_changes() {
    let mut w = Workspace::new();
    press(&mut w, ch('2'));
    press(&mut w, key(KeyCode::Tab));
    assert_eq!(w.focused_synth_field, SynthFocusField::Waveform);
    assert_eq!(
        press(&mut w, key(KeyCode::Left)),
        (false, vec![AppAction::AdjustSynth { field: SynthFocusField::Waveform, track: 0, forward: false }])
    );
    press(&mut w, key(KeyCode::BackTab));
    press(&mut w, key(KeyCode::BackTab));
    assert_eq!(w.focused_synth_field, SynthFocusField::DelayFeedback);
    press(&mut w, ch('3'));
    press(&mut w, key(KeyCode::BackTab));
    assert_eq!(w.focused_mixer_track, 3);
    assert_eq!(
        press(&mut w, ch('m')),
        (false, vec![AppAction::AdjustMixer { track: 3, change: MixerChange::ToggleMute }])
    );
    assert_eq!(
        press(&mut w, ch('S')),
        (false, vec![AppAction::AdjustMixer { track: 3, change: MixerChange::ToggleSolo }])
    );
    assert_eq!(
        press(&mut w, key(KeyCode::Up)),
        (false, vec![AppAction::AdjustMixer { track: 3, change: MixerChange::VolumeUp }])
    );
    // 's' without Ctrl is a keyboard note, not a mixer key
    assert_eq!(
        press(&mut w, ch('s')),
        (false, vec![AppAction::PreviewNote { track: 0, pitch: 62, hold_ms: 250, report_release: false }])
    );
}

#[test]
fn device_keys_connect_and_disconnect() {
    let mut w = Workspace::new();
    press(&mut w, ch('4'));
    let midi = MidiStatus { port_count: 2, connected: false, selected_port: None };
    assert_eq!(w.trigger_key_press(key(KeyCode::Up), midi), (false, vec![]));
    assert_eq!(w.selected_device_idx, 1);
    assert_eq!(w.trigger_key_press(key(KeyCode::Enter), midi), (false, vec![AppAction::ConnectMidi { port: 1 }]));
    let midi = MidiStatus { port_count: 2, connected: true, selected_port: Some(1) };
    assert_eq!(w.trigger_key_press(key(KeyCode::Enter), midi), (false, vec![AppAction::DisconnectMidi]));
    assert_eq!(w.modal_state.toast_message.as_deref(), Some("✗ MIDI DEVICE DISCONNECTED"));
    assert_eq!(w.trigger_key_press(key(KeyCode::Down), midi), (false, vec![]));
    assert_eq!(w.selected_device_idx, 0);
    assert_eq!(w.trigger_key_press(key(KeyCode::Enter), no_midi()), (false, vec![]));
}

#[test]
fn mouse_clicks_place_select_and_remove_notes() {
    let mut w = Workspace::new();
    w.grid_rendered_area = GridArea { x: 8, y: 0, width: 40, height: 26 };
    // row 1 is the top row: pitch scroll_pitch + 24 - 1 = 71; column 9 is tick 0
    let left = MouseInput { column: 11, row: 1, kind: MouseKind::Down(MouseButton::Left) };
    assert!(w.click_in_range(left));
    assert_eq!(
        w.handle_mouse_click(left),
        vec![AppAction::PreviewNote { track: 0, pitch: 71, hold_ms: 200, report_release: false }]
    );
    assert_eq!(w.piano_roll_state.cursor_tick, 2);
    assert_eq!(w.piano_roll_state.cursor_pitch, 71);
    assert_eq!(w.sequencer.tracks[0].notes, vec![Note { pitch: 71, velocity: 100, start_tick: 2, duration_ticks: 4 }]);
    assert_eq!(w.piano_roll_state.selected_note_idx, Some(0));
    // clicking the same note again only selects it
    assert!(w.handle_mouse_click(MouseInput { column: 12, row: 1, kind: MouseKind::Down(MouseButton::Left) }).is_empty());
    assert_eq!(w.sequencer.tracks[0].notes.len(), 1);
    let right = MouseInput { column: 13, row: 1, kind: MouseKind::Down(MouseButton::Right) };
    assert!(w.handle_mouse_click(right).is_empty());
    assert!(w.sequencer.tracks[0].notes.is_empty());
    assert_eq!(w.piano_roll_state.selected_note_idx, None);
    // the border, and other tabs, are not the grid
    let before = w.piano_roll_state.cursor_tick;
    w.handle_mouse_click(MouseInput { column: 8, row: 1, kind: MouseKind::Down(MouseButton::Left) });
    assert_eq!(w.piano_roll_state.cursor_tick, before);
    w.active_tab = ActiveTab::Mixer;
    assert!(w.handle_mouse_click(left).is_empty());
    assert!(w.sequencer.tracks[0].notes.is_empty());
}

#[test]
fn clicks_that_would_overflow_are_flagged() {
    let mut w = Workspace::new();
    w.grid_rendered_area = GridArea { x: 0, y: 0, width: 40, height: 257 };
    assert!(!w.click_in_range(MouseInput { column: 3, row: 3, kind: MouseKind::Other }));
    w.grid_rendered_area = GridArea { x: 0, y: 0, width: 40, height: 26 };
    assert!(w.click_in_range(MouseInput { column: 3, row: 3, kind: MouseKind::Other }));
    w.piano_roll_state.scroll_pitch = 240;
    assert!(!w.click_in_range(MouseInput { column: 3, row: 3, kind: MouseKind::Other }));
}

#[test]
fn export_toast_names_the_file() {
    let mut w = Workspace::new();
    w.finish_export("midi-tui-export.mid");
    assert_eq!(w.modal_state.toast_message.as_deref(), Some("✔ EXPORTED MIDI: midi-tui-export.mid"));
    w.trigger_toast("TRACK MUTED");
    assert_eq!(w.modal_state.toast_message.as_deref(), Some("TRACK MUTED"));
}

#[test]
fn project_names_are_trimmed_and_get_the_json_extension() {
    assert_eq!(trim("  my song\t"), "my song");
    assert_eq!(trim("\u{3000}x\u{2003}"), "x");
    assert_eq!(project_file_name_of(" beat "), "beat.json");
    assert_eq!(project_file_name_of("beat.json"), "beat.json");
    assert_eq!(project_file_name_of("beat.JSON"), "beat.JSON.json");
    assert_eq!(project_file_name_of("   "), ".json");
    assert_eq!(trim("\u{85}a\u{a0}b\u{2028}"), "a\u{a0}b");
    assert_eq!(trim("\u{200b}a"), "\u{200b}a");
}

#[test]
fn instrument_cycle_is_reachable_from_the_synth_module() {
    assert_eq!(midi_tui::synth::next_instrument_type(InstrumentType::Supersaw, true), InstrumentType::Subtractive);
}
