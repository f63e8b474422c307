//! The editing rules of the workstation: what each key press and mouse click does to the
//! song and the screen state, and which outside work (sound, MIDI ports, files) it asks for.
use vstd::prelude::*;
use std::collections::HashMap;
use crate::sequencer::{
    Note, Sequencer, find_note_index, first_note_at, has_note_at, notes_without, with_track_notes,
};
use crate::ui::{ActiveTab, ModalState, PianoRollState, SynthFocusField, MixerFocusField, field_at, field_index, snap_text, snap_label};
use crate::midi::{MidiRecordEvent, key_note, keyboard_key_to_note};
use crate::names::{project_file_name, project_file_name_of};
use crate::seq_lemmas::lemma_filter_all;
use crate::text::{nat_text, push_decimal, push_str, push_char, pop_char};

verus! {

broadcast use vstd::std_specs::hash::group_hash_axioms;

/// Frames a toast stays on screen.
pub const TOAST_TICKS: usize = 40;

/// Velocity of notes placed or played from the computer keyboard.
pub const KEYBOARD_VELOCITY: u8 = 100;

/// How long a note placed on the grid sounds, in milliseconds.
pub const PLACE_PREVIEW_MS: u64 = 200;

/// How long a note played on the computer keyboard sounds, in milliseconds.
pub const KEY_PREVIEW_MS: u64 = 250;

/// A key of the terminal keyboard.
#[derive(Debug, Clone, Copy, PartialEq, Eq, Structural)]
pub enum KeyCode {
    Char(char),
    Enter,
    Esc,
    Backspace,
    Delete,
    Up,
    Down,
    Left,
    Right,
    Tab,
    BackTab,
    Other,
}

/// A key press with its modifiers.
#[derive(Debug, Clone, Copy, PartialEq, Eq, Structural)]
pub struct KeyInput {
    pub code: KeyCode,
    pub ctrl: bool,
    pub shift: bool,
    /// Alt, Super or another modifier.
    pub other_modifiers: bool,
}

/// A mouse button.
#[derive(Debug, Clone, Copy, PartialEq, Eq, Structural)]
pub enum MouseButton {
    Left,
    Right,
    Middle,
}

/// What the mouse did.
#[derive(Debug, Clone, Copy, PartialEq, Eq, Structural)]
pub enum MouseKind {
    Down(MouseButton),
    Other,
}

/// A mouse event at a terminal cell.
#[derive(Debug, Clone, Copy, PartialEq, Eq, Structural)]
pub struct MouseInput {
    pub column: u16,
    pub row: u16,
    pub kind: MouseKind,
}

/// The screen rectangle where the piano roll grid (with its border) was last drawn.
#[derive(Debug, Clone, Copy, PartialEq, Eq, Structural)]
pub struct GridArea {
    pub x: u16,
    pub y: u16,
    pub width: u16,
    pub height: u16,
}

/// What the interface knows of the MIDI input ports.
#[derive(Debug, Clone, Copy, PartialEq, Eq, Structural)]
pub struct MidiStatus {
    pub port_count: usize,
    pub connected: bool,
    pub selected_port: Option<usize>,
}

/// A mixer control change.
#[derive(Debug, Clone, Copy, PartialEq, Eq, Structural)]
pub enum MixerChange {
    VolumeUp,
    VolumeDown,
    PanLeft,
    PanRight,
    ToggleMute,
    ToggleSolo,
}

/// Outside work that an input asks for.
#[derive(Debug, Clone, PartialEq, Eq)]
pub enum AppAction {
    /// Sound a note on a track, then release it after `hold_ms`; when `report_release`, the
    /// release is also handed to the recorder.
    PreviewNote { track: usize, pitch: u8, hold_ms: u64, report_release: bool },
    /// Release every sounding voice.
    AllNotesOff,
    /// Scan the MIDI input ports again.
    RefreshMidiPorts,
    /// Connect the MIDI input port.
    ConnectMidi { port: usize },
    /// Close the MIDI connection.
    DisconnectMidi,
    /// Save the project to the file.
    SaveProject { file_name: String },
    /// List the project files for the load dialog.
    ListProjects,
    /// Load the project file.
    LoadProject { file_name: String },
    /// Write the song as a Standard MIDI File.
    ExportMidi { file_name: String },
    /// Step a synthesizer parameter of a track up (`forward`) or down.
    AdjustSynth { field: SynthFocusField, track: usize, forward: bool },
    /// Change a mixer control of a track.
    AdjustMixer { track: usize, change: MixerChange },
}

/// The state of the workstation's interface and song.
pub struct Workspace {
    pub active_tab: ActiveTab,
    pub sequencer: Sequencer,
    pub piano_roll_state: PianoRollState,
    pub focused_synth_field: SynthFocusField,
    pub focused_mixer_field: MixerFocusField,
    pub focused_mixer_track: usize,
    pub selected_device_idx: usize,
    pub modal_state: ModalState,
    /// Notes being recorded: pitch to (start tick, velocity).
    pub active_recorded_notes: HashMap<u8, (u32, u8)>,
    pub grid_rendered_area: GridArea,
}

/// The toast shows `msg`, for the full time.
pub open spec fn toast_is(m: ModalState, msg: Seq<char>) -> bool {
    &&& m.toast_message matches Some(t) && t@ == msg
    &&& m.toast_ticks == TOAST_TICKS
}

/// `b` has the dialogs of `a` with the given save and load settings, and the toast of `a`.
pub open spec fn dialogs_set(a: ModalState, b: ModalState, show_save: bool, save_input: Seq<char>, show_load: bool, load_idx: usize) -> bool {
    &&& b.show_save == show_save
    &&& b.save_input@ == save_input
    &&& b.show_load == show_load
    &&& b.load_files@ == a.load_files@
    &&& b.load_selected_idx == load_idx
    &&& b.toast_message == a.toast_message
    &&& b.toast_ticks == a.toast_ticks
}

/// `b` has the dialogs of `a` and a fresh toast showing `msg`.
pub open spec fn toasted(a: ModalState, b: ModalState, msg: Seq<char>) -> bool {
    &&& b.show_save == a.show_save
    &&& b.save_input@ == a.save_input@
    &&& b.show_load == a.show_load
    &&& b.load_files@ == a.load_files@
    &&& b.load_selected_idx == a.load_selected_idx
    &&& toast_is(b, msg)
}

/// `b` equals `a` but for the parts flagged as free to change.
pub open spec fn same_except(a: Workspace, b: Workspace, seq: bool, roll: bool, focus: bool, modal: bool, rec: bool) -> bool {
    &&& a.grid_rendered_area == b.grid_rendered_area
    &&& (seq || a.sequencer == b.sequencer)
    &&& (roll || a.piano_roll_state == b.piano_roll_state)
    &&& (focus || (a.active_tab == b.active_tab && a.focused_synth_field == b.focused_synth_field
        && a.focused_mixer_field == b.focused_mixer_field && a.focused_mixer_track == b.focused_mixer_track
        && a.selected_device_idx == b.selected_device_idx))
    &&& (modal || a.modal_state == b.modal_state)
    &&& (rec || a.active_recorded_notes@ == b.active_recorded_notes@)
}

/// Only the sequencer's playing and recording flags differ, and they are as given.
pub open spec fn transport_set(a: Sequencer, b: Sequencer, playing: bool, recording: bool) -> bool {
    &&& b.tracks == a.tracks
    &&& b.bpm == a.bpm
    &&& b.current_tick == a.current_tick
    &&& b.max_ticks == a.max_ticks
    &&& b.loop_start == a.loop_start
    &&& b.loop_end == a.loop_end
    &&& b.ticks_per_beat == a.ticks_per_beat
    &&& b.snap_division == a.snap_division
    &&& b.is_playing == playing
    &&& b.is_recording == recording
}

/// The index of the first note under the cursor on the active track, if any.
pub open spec fn selection_of(s: Sequencer, st: PianoRollState) -> Option<usize> {
    let notes = s.tracks@[st.active_track_idx as int].notes@;
    if has_note_at(notes, st.cursor_pitch, st.cursor_tick) {
        Some((choose|k: int| first_note_at(notes, st.cursor_pitch, st.cursor_tick, k)) as usize)
    } else {
        None
    }
}

/// The first note of a pitch at a tick is unique.
pub proof fn lemma_first_note_unique(notes: Seq<Note>, pitch: u8, tick: u32, k1: int, k2: int)
    requires
        first_note_at(notes, pitch, tick, k1),
        first_note_at(notes, pitch, tick, k2),
    ensures
        k1 == k2,
{
    if k1 < k2 {
        assert(!crate::sequencer::note_sounds_at(notes[k1], pitch, tick));
    } else if k2 < k1 {
        assert(!crate::sequencer::note_sounds_at(notes[k2], pitch, tick));
    }
}

impl Workspace {
    /// The interface's invariant: at least four tracks, the active track and the mixer's track
    /// among the first four, and the load dialog's selection inside its list.
    pub open spec fn wf(&self) -> bool {
        &&& self.sequencer.tracks@.len() >= 4
        &&& self.piano_roll_state.active_track_idx < 4
        &&& self.focused_mixer_track < 4
        &&& (self.modal_state.load_files@.len() == 0 || self.modal_state.load_selected_idx
            < self.modal_state.load_files@.len())
    }

    /// The starting state: the sequencer tab of a new song, the cursor on C4 of track 1, the
    /// synth editor on the instrument type, the mixer on track 1's volume, no dialog.
    pub fn new() -> (w: Workspace)
        ensures
            w.wf(),
            w.active_tab == ActiveTab::Sequencer,
            w.piano_roll_state.cursor_pitch == 60 && w.piano_roll_state.cursor_tick == 0,
            w.piano_roll_state.active_track_idx == 0,
            w.focused_synth_field == SynthFocusField::InstrumentType,
            w.focused_mixer_field == MixerFocusField::TrackVolume,
            w.focused_mixer_track == 0,
            w.selected_device_idx == 0,
            !w.modal_state.show_save && !w.modal_state.show_load && w.modal_state.toast_message is None,
            w.active_recorded_notes@ == Map::<u8, (u32, u8)>::empty(),
            w.sequencer.tracks@.len() == 4,
            !w.sequencer.is_playing && !w.sequencer.is_recording,
    {
        Workspace {
            active_tab: ActiveTab::Sequencer,
            sequencer: Sequencer::new(),
            piano_roll_state: PianoRollState::new(),
            focused_synth_field: SynthFocusField::InstrumentType,
            focused_mixer_field: MixerFocusField::TrackVolume,
            focused_mixer_track: 0,
            selected_device_idx: 0,
            modal_state: ModalState::new(),
            active_recorded_notes: HashMap::new(),
            grid_rendered_area: GridArea { x: 0, y: 0, width: 0, height: 0 },
        }
    }

    /// Shows a toast message for the full time.
    pub fn trigger_toast(&mut self, msg: &str)
        ensures
            same_except(*old(self), *final(self), false, false, false, true, false),
            toasted(old(self).modal_state, final(self).modal_state, msg@),
    {
        self.modal_state.toast_message = Some(msg.to_owned());
        self.modal_state.toast_ticks = TOAST_TICKS;
    }

    fn toast_string(&mut self, msg: String)
        ensures
            same_except(*old(self), *final(self), false, false, false, true, false),
            toasted(old(self).modal_state, final(self).modal_state, msg@),
    {
        self.modal_state.toast_message = Some(msg);
        self.modal_state.toast_ticks = TOAST_TICKS;
    }
}

/// Toast text when playback starts or stops.
pub open spec fn play_toast(playing: bool) -> Seq<char> {
    if playing {
        "▶ PLAYBACK STARTED"@
    } else {
        "■ PLAYBACK STOPPED"@
    }
}

/// Toast text when recording is armed or muted.
pub open spec fn record_toast(recording: bool) -> Seq<char> {
    if recording {
        "● RECORDING ARMED"@
    } else {
        "○ RECORDING MUTED"@
    }
}

/// A key in the save dialog: Enter asks to save under the typed name (nothing when it is
/// empty), Esc closes the dialog, a character is typed, Backspace deletes the last one.
pub open spec fn save_dialog_key(a: Workspace, b: Workspace, key: KeyInput, acts: Seq<AppAction>) -> bool {
    let m = a.modal_state;
    match key.code {
        KeyCode::Enter => b == a && if m.save_input@.len() == 0 {
            acts.len() == 0
        } else {
            acts.len() == 1 && (acts[0] matches AppAction::SaveProject { file_name } && file_name@
                == project_file_name(m.save_input@))
        },
        KeyCode::Esc => acts.len() == 0 && same_except(a, b, false, false, false, true, false) && dialogs_set(
            m,
            b.modal_state,
            false,
            m.save_input@,
            m.show_load,
            m.load_selected_idx,
        ),
        KeyCode::Char(c) => acts.len() == 0 && same_except(a, b, false, false, false, true, false)
            && dialogs_set(m, b.modal_state, m.show_save, m.save_input@.push(c), m.show_load, m.load_selected_idx),
        KeyCode::Backspace => acts.len() == 0 && same_except(a, b, false, false, false, true, false)
            && dialogs_set(
            m,
            b.modal_state,
            m.show_save,
            if m.save_input@.len() > 0 {
                m.save_input@.drop_last()
            } else {
                m.save_input@
            },
            m.show_load,
            m.load_selected_idx,
        ),
        _ => b == a && acts.len() == 0,
    }
}

/// A key in the load dialog: Up and Down move the selection round the list, Enter asks to
/// load the selected file (nothing for an empty list), Esc closes the dialog.
pub open spec fn load_dialog_key(a: Workspace, b: Workspace, key: KeyInput, acts: Seq<AppAction>) -> bool {
    let m = a.modal_state;
    let n = m.load_files@.len();
    let i = m.load_selected_idx;
    match key.code {
        KeyCode::Up => acts.len() == 0 && same_except(a, b, false, false, false, true, false) && dialogs_set(
            m,
            b.modal_state,
            m.show_save,
            m.save_input@,
            m.show_load,
            if n == 0 {
                i
            } else if i > 0 {
                (i - 1) as usize
            } else {
                (n - 1) as usize
            },
        ),
        KeyCode::Down => acts.len() == 0 && same_except(a, b, false, false, false, true, false) && dialogs_set(
            m,
            b.modal_state,
            m.show_save,
            m.save_input@,
            m.show_load,
            if n == 0 {
                i
            } else {
                ((i + 1) % (n as int)) as usize
            },
        ),
        KeyCode::Enter => b == a && if n == 0 {
            acts.len() == 0
        } else {
            acts.len() == 1 && (acts[0] matches AppAction::LoadProject { file_name } && file_name@
                == m.load_files@[i as int]@)
        },
        KeyCode::Esc => acts.len() == 0 && same_except(a, b, false, false, false, true, false) && dialogs_set(
            m,
            b.modal_state,
            m.show_save,
            m.save_input@,
            false,
            i,
        ),
        _ => b == a && acts.len() == 0,
    }
}

/// Starting or stopping playback: stopping also disarms recording and releases every voice.
pub open spec fn toggle_play_effect(a: Workspace, b: Workspace, acts: Seq<AppAction>) -> bool {
    let playing = !a.sequencer.is_playing;
    &&& same_except(a, b, true, false, false, true, false)
    &&& transport_set(
        a.sequencer,
        b.sequencer,
        playing,
        if playing {
            a.sequencer.is_recording
        } else {
            false
        },
    )
    &&& toasted(a.modal_state, b.modal_state, play_toast(playing))
    &&& acts == if playing {
        Seq::<AppAction>::empty()
    } else {
        seq![AppAction::AllNotesOff]
    }
}

/// Arming or muting recording: arming also starts playback and forgets half-recorded notes.
pub open spec fn toggle_record_effect(a: Workspace, b: Workspace, acts: Seq<AppAction>) -> bool {
    let recording = !a.sequencer.is_recording;
    &&& same_except(a, b, true, false, false, true, true)
    &&& transport_set(
        a.sequencer,
        b.sequencer,
        if recording {
            true
        } else {
            a.sequencer.is_playing
        },
        recording,
    )
    &&& b.active_recorded_notes@ == if recording {
        Map::<u8, (u32, u8)>::empty()
    } else {
        a.active_recorded_notes@
    }
    &&& toasted(a.modal_state, b.modal_state, record_toast(recording))
    &&& acts.len() == 0
}

impl Workspace {
    fn save_dialog_input(&mut self, key: KeyInput) -> (acts: Vec<AppAction>)
        requires
            old(self).wf(),
        ensures
            final(self).wf(),
            save_dialog_key(*old(self), *final(self), key, acts@),
    {
        let mut acts: Vec<AppAction> = Vec::new();
        match key.code {
            KeyCode::Enter => {
                if self.modal_state.save_input.as_str().unicode_len() > 0 {
                    let file_name = project_file_name_of(self.modal_state.save_input.as_str());
                    acts.push(AppAction::SaveProject { file_name });
                }
            },
            KeyCode::Esc => {
                self.modal_state.show_save = false;
            },
            KeyCode::Char(c) => {
                push_char(&mut self.modal_state.save_input, c);
            },
            KeyCode::Backspace => {
                pop_char(&mut self.modal_state.save_input);
            },
            _ => {},
        }
        acts
    }

    fn load_dialog_input(&mut self, key: KeyInput) -> (acts: Vec<AppAction>)
        requires
            old(self).wf(),
        ensures
            final(self).wf(),
            load_dialog_key(*old(self), *final(self), key, acts@),
    {
        let mut acts: Vec<AppAction> = Vec::new();
        let n = self.modal_state.load_files.len();
        match key.code {
            KeyCode::Up => {
                if n > 0 {
                    if self.modal_state.load_selected_idx > 0 {
                        self.modal_state.load_selected_idx = self.modal_state.load_selected_idx - 1;
                    } else {
                        self.modal_state.load_selected_idx = n - 1;
                    }
                }
            },
            KeyCode::Down => {
                if n > 0 {
                    self.modal_state.load_selected_idx = (self.modal_state.load_selected_idx + 1) % n;
                }
            },
            KeyCode::Enter => {
                if n > 0 {
                    let file_name = self.modal_state.load_files[self.modal_state.load_selected_idx].clone();
                    acts.push(AppAction::LoadProject { file_name });
                }
            },
            KeyCode::Esc => {
                self.modal_state.show_load = false;
            },
            _ => {},
        }
        acts
    }

    fn toggle_play(&mut self) -> (acts: Vec<AppAction>)
        requires
            old(self).wf(),
        ensures
            final(self).wf(),
            toggle_play_effect(*old(self), *final(self), acts@),
    {
        let mut acts: Vec<AppAction> = Vec::new();
        self.sequencer.is_playing = !self.sequencer.is_playing;
        if !self.sequencer.is_playing {
            acts.push(AppAction::AllNotesOff);
            self.sequencer.is_recording = false;
        }
        if self.sequencer.is_playing {
            self.trigger_toast("▶ PLAYBACK STARTED");
        } else {
            self.trigger_toast("■ PLAYBACK STOPPED");
        }
        acts
    }

    fn toggle_record(&mut self) -> (acts: Vec<AppAction>)
        requires
            old(self).wf(),
        ensures
            final(self).wf(),
            toggle_record_effect(*old(self), *final(self), acts@),
    {
        self.sequencer.is_recording = !self.sequencer.is_recording;
        if self.sequencer.is_recording {
            self.sequencer.is_playing = true;
            self.active_recorded_notes.clear();
        }
        if self.sequencer.is_recording {
            self.trigger_toast("● RECORDING ARMED");
        } else {
            self.trigger_toast("○ RECORDING MUTED");
        }
        Vec::new()
    }

    /// Opens the load dialog on a list of project files, the first one selected.
    pub fn open_load_modal(&mut self, files: Vec<String>)
        requires
            old(self).wf(),
        ensures
            final(self).wf(),
            same_except(*old(self), *final(self), false, false, false, true, false),
            final(self).modal_state.load_files@ == files@,
            final(self).modal_state.load_selected_idx == 0,
            final(self).modal_state.show_load,
            final(self).modal_state.show_save == old(self).modal_state.show_save,
            final(self).modal_state.save_input == old(self).modal_state.save_input,
            final(self).modal_state.toast_message == old(self).modal_state.toast_message,
            final(self).modal_state.toast_ticks == old(self).modal_state.toast_ticks,
    {
        self.modal_state.load_files = files;
        self.modal_state.load_selected_idx = 0;
        self.modal_state.show_load = true;
    }

    /// After a successful save: the save dialog closes and a toast names the file.
    pub fn finish_save(&mut self, file_name: &str)
        requires
            old(self).wf(),
        ensures
            final(self).wf(),
            same_except(*old(self), *final(self), false, false, false, true, false),
            !final(self).modal_state.show_save,
            final(self).modal_state.save_input@ == old(self).modal_state.save_input@,
            final(self).modal_state.show_load == old(self).modal_state.show_load,
            final(self).modal_state.load_files@ == old(self).modal_state.load_files@,
            final(self).modal_state.load_selected_idx == old(self).modal_state.load_selected_idx,
            toast_is(final(self).modal_state, "✔ SAVED: "@ + file_name@),
    {
        self.modal_state.show_save = false;
        let mut msg = String::new();
        push_str(&mut msg, "✔ SAVED: ");
        push_str(&mut msg, file_name);
        self.toast_string(msg);
    }

    /// After a successful load: the load dialog closes and a toast names the file.
    pub fn finish_load(&mut self, file_name: &str)
        requires
            old(self).wf(),
        ensures
            final(self).wf(),
            same_except(*old(self), *final(self), false, false, false, true, false),
            !final(self).modal_state.show_load,
            final(self).modal_state.show_save == old(self).modal_state.show_save,
            final(self).modal_state.save_input@ == old(self).modal_state.save_input@,
            final(self).modal_state.load_files@ == old(self).modal_state.load_files@,
            final(self).modal_state.load_selected_idx == old(self).modal_state.load_selected_idx,
            toast_is(final(self).modal_state, "✔ LOADED: "@ + file_name@),
    {
        self.modal_state.show_load = false;
        let mut msg = String::new();
        push_str(&mut msg, "✔ LOADED: ");
        push_str(&mut msg, file_name);
        self.toast_string(msg);
    }

    /// Replaces the song with a loaded one; the rest of the interface stays.
    pub fn install_sequencer(&mut self, sequencer: Sequencer)
        requires
            old(self).wf(),
            sequencer.tracks@.len() >= 4,
        ensures
            final(self).wf(),
            same_except(*old(self), *final(self), true, false, false, false, false),
            final(self).sequencer == sequencer,
    {
        self.sequencer = sequencer;
    }
}

/// The next coarser grid snap: 1, 2, 4, 8, 16 ticks.
pub open spec fn snap_coarser(s: u32) -> Option<u32> {
    if s == 1 {
        Some(2u32)
    } else if s == 2 {
        Some(4u32)
    } else if s == 4 {
        Some(8u32)
    } else if s == 8 {
        Some(16u32)
    } else {
        None
    }
}

/// The next finer grid snap: 16, 8, 4, 2, 1 ticks.
pub open spec fn snap_finer(s: u32) -> Option<u32> {
    if s == 2 {
        Some(1u32)
    } else if s == 4 {
        Some(2u32)
    } else if s == 8 {
        Some(4u32)
    } else if s == 16 {
        Some(8u32)
    } else {
        None
    }
}

/// Coarsening the snap and then refining it (or the other way round) gives back the snap.
pub proof fn lemma_snap_steps_inverse(s: u32)
    ensures
        snap_coarser(s) matches Some(c) ==> snap_finer(c) == Some(s),
        snap_finer(s) matches Some(f) ==> snap_coarser(f) == Some(s),
{
}

/// Only the grid snap of the sequencer differs, and it is `snap`.
pub open spec fn snap_set(a: Sequencer, b: Sequencer, snap: u32) -> bool {
    &&& b.tracks == a.tracks
    &&& b.bpm == a.bpm
    &&& b.current_tick == a.current_tick
    &&& b.max_ticks == a.max_ticks
    &&& b.loop_start == a.loop_start
    &&& b.loop_end == a.loop_end
    &&& b.is_playing == a.is_playing
    &&& b.is_recording == a.is_recording
    &&& b.ticks_per_beat == a.ticks_per_beat
    &&& b.snap_division == snap
}

/// The cursor, active track and default note length of the piano roll are as given.
pub open spec fn roll_at(b: PianoRollState, a: PianoRollState, track: usize, pitch: u8, tick: u32, default_len: u32) -> bool {
    &&& b.active_track_idx == track
    &&& b.cursor_pitch == pitch
    &&& b.cursor_tick == tick
    &&& b.note_duration_default == default_len
    &&& b.scroll_tick == a.scroll_tick
    &&& b.scroll_pitch == a.scroll_pitch
}

/// Toast text for a new default note length.
pub open spec fn length_toast(len: u32) -> Seq<char> {
    "DEFAULT NOTE LENGTH: "@ + nat_text(len as nat) + " TICKS"@
}

/// Toast text for a new grid snap.
pub open spec fn snap_toast(snap: u32) -> Seq<char> {
    "GRID SNAP: "@ + snap_text(snap)
}

/// The note at index `i` of the active track, if the selection points at one.
pub open spec fn selected_note(a: Workspace) -> Option<(int, Note)> {
    let notes = a.sequencer.tracks@[a.piano_roll_state.active_track_idx as int].notes@;
    match a.piano_roll_state.selected_note_idx {
        Some(i) => if i < notes.len() {
            Some((i as int, notes[i as int]))
        } else {
            None
        },
        None => None,
    }
}

/// Arrow Up in the piano roll: the cursor one pitch higher (up to 127); with Shift the
/// selected note one pitch higher, the cursor following it.
pub open spec fn roll_up_change(a: Workspace, b: Workspace, shift: bool) -> bool {
    let st = a.piano_roll_state;
    let act = st.active_track_idx;
    let notes = a.sequencer.tracks@[act as int].notes@;
    let keep = b.sequencer == a.sequencer && roll_at(b.piano_roll_state, st, act, st.cursor_pitch, st.cursor_tick, st.note_duration_default);
    b.modal_state == a.modal_state && if shift {
        match selected_note(a) {
            Some((i, n)) => if n.pitch < 127 {
                with_track_notes(a.sequencer, b.sequencer, act as int, notes.update(i, Note { pitch: (n.pitch + 1) as u8, ..n }))
                    && roll_at(b.piano_roll_state, st, act, (n.pitch + 1) as u8, st.cursor_tick, st.note_duration_default)
            } else {
                keep
            },
            None => keep,
        }
    } else {
        b.sequencer == a.sequencer && roll_at(
            b.piano_roll_state,
            st,
            act,
            if st.cursor_pitch < 127 {
                (st.cursor_pitch + 1) as u8
            } else {
                st.cursor_pitch
            },
            st.cursor_tick,
            st.note_duration_default,
        )
    }
}

/// Arrow Down in the piano roll: the cursor one pitch lower (down to 0); with Shift the
/// selected note one pitch lower, the cursor following it.
pub open spec fn roll_down_change(a: Workspace, b: Workspace, shift: bool) -> bool {
    let st = a.piano_roll_state;
    let act = st.active_track_idx;
    let notes = a.sequencer.tracks@[act as int].notes@;
    let keep = b.sequencer == a.sequencer && roll_at(b.piano_roll_state, st, act, st.cursor_pitch, st.cursor_tick, st.note_duration_default);
    b.modal_state == a.modal_state && if shift {
        match selected_note(a) {
            Some((i, n)) => if n.pitch > 0 {
                with_track_notes(a.sequencer, b.sequencer, act as int, notes.update(i, Note { pitch: (n.pitch - 1) as u8, ..n }))
                    && roll_at(b.piano_roll_state, st, act, (n.pitch - 1) as u8, st.cursor_tick, st.note_duration_default)
            } else {
                keep
            },
            None => keep,
        }
    } else {
        b.sequencer == a.sequencer && roll_at(
            b.piano_roll_state,
            st,
            act,
            if st.cursor_pitch > 0 {
                (st.cursor_pitch - 1) as u8
            } else {
                st.cursor_pitch
            },
            st.cursor_tick,
            st.note_duration_default,
        )
    }
}

/// Arrow Left in the piano roll: the cursor back by the snap (stopping at 0); with Shift the
/// selected note shorter by the snap, if it is longer than the snap.
pub open spec fn roll_left_change(a: Workspace, b: Workspace, shift: bool) -> bool {
    let st = a.piano_roll_state;
    let act = st.active_track_idx;
    let notes = a.sequencer.tracks@[act as int].notes@;
    let snap = a.sequencer.snap_division;
    b.modal_state == a.modal_state && if shift {
        roll_at(b.piano_roll_state, st, act, st.cursor_pitch, st.cursor_tick, st.note_duration_default) && match selected_note(a) {
            Some((i, n)) => if n.duration_ticks > snap {
                with_track_notes(a.sequencer, b.sequencer, act as int, notes.update(i, Note { duration_ticks: (n.duration_ticks - snap) as u32, ..n }))
            } else {
                b.sequencer == a.sequencer
            },
            None => b.sequencer == a.sequencer,
        }
    } else {
        b.sequencer == a.sequencer && roll_at(
            b.piano_roll_state,
            st,
            act,
            st.cursor_pitch,
            if st.cursor_tick >= snap {
                (st.cursor_tick - snap) as u32
            } else {
                0
            },
            st.note_duration_default,
        )
    }
}

/// Arrow Right in the piano roll: the cursor on by the snap while it stays inside the song;
/// with Shift the selected note longer by the snap.
pub open spec fn roll_right_change(a: Workspace, b: Workspace, shift: bool) -> bool {
    let st = a.piano_roll_state;
    let act = st.active_track_idx;
    let notes = a.sequencer.tracks@[act as int].notes@;
    let snap = a.sequencer.snap_division;
    b.modal_state == a.modal_state && if shift {
        roll_at(b.piano_roll_state, st, act, st.cursor_pitch, st.cursor_tick, st.note_duration_default) && match selected_note(a) {
            Some((i, n)) => with_track_notes(a.sequencer, b.sequencer, act as int, notes.update(i, Note { duration_ticks: (n.duration_ticks + snap) as u32, ..n })),
            None => b.sequencer == a.sequencer,
        }
    } else {
        b.sequencer == a.sequencer && roll_at(
            b.piano_roll_state,
            st,
            act,
            st.cursor_pitch,
            if st.cursor_tick + snap < a.sequencer.max_ticks {
                (st.cursor_tick + snap) as u32
            } else {
                st.cursor_tick
            },
            st.note_duration_default,
        )
    }
}

/// A character in the piano roll: + and = lengthen the default note by a tick, - and _
/// shorten it (not below 1), [ and ] make the snap coarser or finer and round the cursor down
/// to it; each change is toasted. Other characters change nothing.
pub open spec fn roll_char_change(a: Workspace, b: Workspace, c: char) -> bool {
    let st = a.piano_roll_state;
    let act = st.active_track_idx;
    let snap = a.sequencer.snap_division;
    let cp = st.cursor_pitch;
    let ct = st.cursor_tick;
    let dl = st.note_duration_default;
    let nothing = b.sequencer == a.sequencer && b.modal_state == a.modal_state && roll_at(b.piano_roll_state, st, act, cp, ct, dl);
    if c == '+' || c == '=' {
        b.sequencer == a.sequencer && roll_at(b.piano_roll_state, st, act, cp, ct, (dl + 1) as u32)
            && toasted(a.modal_state, b.modal_state, length_toast((dl + 1) as u32))
    } else if c == '-' || c == '_' {
        if dl > 1 {
            b.sequencer == a.sequencer && roll_at(b.piano_roll_state, st, act, cp, ct, (dl - 1) as u32)
                && toasted(a.modal_state, b.modal_state, length_toast((dl - 1) as u32))
        } else {
            nothing
        }
    } else if c == '[' || c == ']' {
        match (if c == '[' {
            snap_coarser(snap)
        } else {
            snap_finer(snap)
        }) {
            Some(n) => snap_set(a.sequencer, b.sequencer, n) && roll_at(b.piano_roll_state, st, act, cp, ((ct / n) * n) as u32, dl)
                && toasted(a.modal_state, b.modal_state, snap_toast(n)),
            None => nothing,
        }
    } else {
        nothing
    }
}

/// What a key does to the song, the piano roll and the toast, before the selection is
/// refreshed.
pub open spec fn roll_change(a: Workspace, b: Workspace, key: KeyInput) -> bool {
    let st = a.piano_roll_state;
    let act = st.active_track_idx;
    let notes = a.sequencer.tracks@[act as int].notes@;
    let cp = st.cursor_pitch;
    let ct = st.cursor_tick;
    let dl = st.note_duration_default;
    let nothing = b.sequencer == a.sequencer && b.modal_state == a.modal_state && roll_at(b.piano_roll_state, st, act, cp, ct, dl);
    match key.code {
        KeyCode::Up => roll_up_change(a, b, key.shift),
        KeyCode::Down => roll_down_change(a, b, key.shift),
        KeyCode::Left => roll_left_change(a, b, key.shift),
        KeyCode::Right => roll_right_change(a, b, key.shift),
        KeyCode::Delete | KeyCode::Backspace => b.modal_state == a.modal_state && roll_at(b.piano_roll_state, st, act, cp, ct, dl)
            && with_track_notes(a.sequencer, b.sequencer, act as int, notes_without(notes, cp, ct)),
        KeyCode::Tab => b.sequencer == a.sequencer && b.modal_state == a.modal_state
            && roll_at(b.piano_roll_state, st, ((act + 1) % 4) as usize, cp, ct, dl),
        KeyCode::BackTab => b.sequencer == a.sequencer && b.modal_state == a.modal_state && roll_at(
            b.piano_roll_state,
            st,
            if act > 0 {
                (act - 1) as usize
            } else {
                3
            },
            cp,
            ct,
            dl,
        ),
        KeyCode::Char(c) => roll_char_change(a, b, c),
        _ => nothing,
    }
}

/// A key in the piano roll. The arrows move the cursor by a pitch or by the snap; with Shift
/// they transpose the selected note or shorten or lengthen it by the snap. Delete and
/// Backspace remove the note under the cursor; Tab and Shift-Tab cycle the four tracks; + and
/// - change the default note length; [ and ] change the snap. Afterwards the note under the
/// cursor is selected.
pub open spec fn roll_key_effect(a: Workspace, b: Workspace, key: KeyInput, acts: Seq<AppAction>) -> bool {
    &&& acts.len() == 0
    &&& same_except(a, b, true, true, false, true, false)
    &&& roll_change(a, b, key)
    &&& b.piano_roll_state.selected_note_idx == selection_of(b.sequencer, b.piano_roll_state)
}

/// The piano roll key does not overflow a counter: lengthening the selected note by the snap,
/// moving the cursor right by the snap and raising the default note length stay in range.
pub open spec fn roll_key_defined(a: Workspace, key: KeyInput) -> bool {
    let st = a.piano_roll_state;
    let snap = a.sequencer.snap_division;
    &&& (key.code == KeyCode::Right && key.shift) ==> (selected_note(a) matches Some((i, n)) ==> n.duration_ticks
        + snap <= u32::MAX)
    &&& (key.code == KeyCode::Right && !key.shift) ==> st.cursor_tick + snap <= u32::MAX
    &&& (key.code == KeyCode::Char('+') || key.code == KeyCode::Char('=')) ==> st.note_duration_default < u32::MAX
}

impl Workspace {
    fn set_selected_note(&mut self, i: usize, n: Note)
        requires
            old(self).wf(),
            i < old(self).sequencer.tracks@[old(self).piano_roll_state.active_track_idx as int].notes@.len(),
        ensures
            final(self).wf(),
            same_except(*old(self), *final(self), true, false, false, false, false),
            with_track_notes(
                old(self).sequencer,
                final(self).sequencer,
                old(self).piano_roll_state.active_track_idx as int,
                old(self).sequencer.tracks@[old(self).piano_roll_state.active_track_idx as int].notes@.update(
                    i as int,
                    n,
                ),
            ),
    {
        let act = self.piano_roll_state.active_track_idx;
        self.sequencer.tracks[act].notes.set(i, n);
    }

    fn refresh_selection(&mut self)
        requires
            old(self).wf(),
        ensures
            final(self).wf(),
            same_except(*old(self), *final(self), false, true, false, false, false),
            final(self).piano_roll_state == (PianoRollState {
                selected_note_idx: selection_of(old(self).sequencer, old(self).piano_roll_state),
                ..old(self).piano_roll_state
            }),
    {
        let act = self.piano_roll_state.active_track_idx;
        let found = find_note_index(
            &self.sequencer.tracks[act].notes,
            self.piano_roll_state.cursor_pitch,
            self.piano_roll_state.cursor_tick,
        );
        proof {
            let notes = self.sequencer.tracks@[act as int].notes@;
            let cp = self.piano_roll_state.cursor_pitch;
            let ct = self.piano_roll_state.cursor_tick;
            if let Some(k) = found {
                let kk = choose|kk: int| first_note_at(notes, cp, ct, kk);
                lemma_first_note_unique(notes, cp, ct, k as int, kk);
            }
        }
        self.piano_roll_state.selected_note_idx = found;
    }

    fn length_message(len: u32) -> (s: String)
        ensures
            s@ == length_toast(len),
    {
        let mut s = String::new();
        push_str(&mut s, "DEFAULT NOTE LENGTH: ");
        push_decimal(&mut s, len);
        push_str(&mut s, " TICKS");
        s
    }

    fn snap_message(snap: u32) -> (s: String)
        ensures
            s@ == snap_toast(snap),
    {
        let mut s = String::new();
        push_str(&mut s, "GRID SNAP: ");
        push_str(&mut s, snap_label(snap));
        s
    }

    fn selection(&self) -> (sel: Option<(usize, Note)>)
        requires
            self.wf(),
        ensures
            match sel {
                Some((i, n)) => selected_note(*self) == Some((i as int, n)),
                None => selected_note(*self) is None,
            },
    {
        let act = self.piano_roll_state.active_track_idx;
        match self.piano_roll_state.selected_note_idx {
            Some(i) => if i < self.sequencer.tracks[act].notes.len() {
                Some((i, self.sequencer.tracks[act].notes[i]))
            } else {
                None
            },
            None => None,
        }
    }

    fn roll_up(&mut self, shift: bool)
        requires
            old(self).wf(),
        ensures
            final(self).wf(),
            same_except(*old(self), *final(self), true, true, false, false, false),
            roll_up_change(*old(self), *final(self), shift),
    {
        let sel = self.selection();
        if shift {
            if let Some((i, n)) = sel {
                if n.pitch < 127 {
                    self.set_selected_note(i, Note { pitch: n.pitch + 1, ..n });
                    self.piano_roll_state.cursor_pitch = n.pitch + 1;
                }
            }
        } else if self.piano_roll_state.cursor_pitch < 127 {
            self.piano_roll_state.cursor_pitch = self.piano_roll_state.cursor_pitch + 1;
        }
    }

    fn roll_down(&mut self, shift: bool)
        requires
            old(self).wf(),
        ensures
            final(self).wf(),
            same_except(*old(self), *final(self), true, true, false, false, false),
            roll_down_change(*old(self), *final(self), shift),
    {
        let sel = self.selection();
        if shift {
            if let Some((i, n)) = sel {
                if n.pitch > 0 {
                    self.set_selected_note(i, Note { pitch: n.pitch - 1, ..n });
                    self.piano_roll_state.cursor_pitch = n.pitch - 1;
                }
            }
        } else if self.piano_roll_state.cursor_pitch > 0 {
            self.piano_roll_state.cursor_pitch = self.piano_roll_state.cursor_pitch - 1;
        }
    }

    fn roll_left(&mut self, shift: bool)
        requires
            old(self).wf(),
        ensures
            final(self).wf(),
            same_except(*old(self), *final(self), true, true, false, false, false),
            roll_left_change(*old(self), *final(self), shift),
    {
        let sel = self.selection();
        let snap = self.sequencer.snap_division;
        if shift {
            if let Some((i, n)) = sel {
                if n.duration_ticks > snap {
                    self.set_selected_note(i, Note { duration_ticks: n.duration_ticks - snap, ..n });
                }
            }
        } else if self.piano_roll_state.cursor_tick >= snap {
            self.piano_roll_state.cursor_tick = self.piano_roll_state.cursor_tick - snap;
        } else {
            self.piano_roll_state.cursor_tick = 0;
        }
    }

    fn roll_right(&mut self, shift: bool)
        requires
            old(self).wf(),
            roll_key_defined(*old(self), KeyInput { code: KeyCode::Right, ctrl: false, shift, other_modifiers: false }),
        ensures
            final(self).wf(),
            same_except(*old(self), *final(self), true, true, false, false, false),
            roll_right_change(*old(self), *final(self), shift),
    {
        let sel = self.selection();
        let snap = self.sequencer.snap_division;
        if shift {
            if let Some((i, n)) = sel {
                self.set_selected_note(i, Note { duration_ticks: n.duration_ticks + snap, ..n });
            }
        } else if self.piano_roll_state.cursor_tick + snap < self.sequencer.max_ticks {
            self.piano_roll_state.cursor_tick = self.piano_roll_state.cursor_tick + snap;
        }
    }

    fn roll_char(&mut self, c: char)
        requires
            old(self).wf(),
            (c == '+' || c == '=') ==> old(self).piano_roll_state.note_duration_default < u32::MAX,
        ensures
            final(self).wf(),
            same_except(*old(self), *final(self), true, true, false, true, false),
            roll_char_change(*old(self), *final(self), c),
    {
        let snap = self.sequencer.snap_division;
        if c == '+' || c == '=' {
            self.piano_roll_state.note_duration_default = self.piano_roll_state.note_duration_default + 1;
            let msg = Self::length_message(self.piano_roll_state.note_duration_default);
            self.toast_string(msg);
        } else if c == '-' || c == '_' {
            if self.piano_roll_state.note_duration_default > 1 {
                self.piano_roll_state.note_duration_default = self.piano_roll_state.note_duration_default - 1;
                let msg = Self::length_message(self.piano_roll_state.note_duration_default);
                self.toast_string(msg);
            }
        } else if c == '[' || c == ']' {
            let next: Option<u32> = if c == '[' {
                match snap {
                    1 => Some(2),
                    2 => Some(4),
                    4 => Some(8),
                    8 => Some(16),
                    _ => None,
                }
            } else {
                match snap {
                    2 => Some(1),
                    4 => Some(2),
                    8 => Some(4),
                    16 => Some(8),
                    _ => None,
                }
            };
            if let Some(n) = next {
                self.sequencer.snap_division = n;
                self.piano_roll_state.cursor_tick = (self.piano_roll_state.cursor_tick / n) * n;
                let msg = Self::snap_message(n);
                self.toast_string(msg);
            }
        }
    }

    fn roll_change_step(&mut self, key: KeyInput)
        requires
            old(self).wf(),
            roll_key_defined(*old(self), key),
        ensures
            final(self).wf(),
            same_except(*old(self), *final(self), true, true, false, true, false),
            roll_change(*old(self), *final(self), key),
    {
        let act = self.piano_roll_state.active_track_idx;
        match key.code {
            KeyCode::Up => self.roll_up(key.shift),
            KeyCode::Down => self.roll_down(key.shift),
            KeyCode::Left => self.roll_left(key.shift),
            KeyCode::Right => self.roll_right(key.shift),
            KeyCode::Delete | KeyCode::Backspace => {
                let pitch = self.piano_roll_state.cursor_pitch;
                let tick = self.piano_roll_state.cursor_tick;
                self.sequencer.remove_note_at(act, pitch, tick);
            },
            KeyCode::Tab => {
                self.piano_roll_state.active_track_idx = (act + 1) % 4;
            },
            KeyCode::BackTab => {
                if act > 0 {
                    self.piano_roll_state.active_track_idx = act - 1;
                } else {
                    self.piano_roll_state.active_track_idx = 3;
                }
            },
            KeyCode::Char(c) => self.roll_char(c),
            _ => {},
        }
    }

    /// Handles a key in the piano roll.
    pub fn handle_piano_roll_input(&mut self, key: KeyInput) -> (acts: Vec<AppAction>)
        requires
            old(self).wf(),
            roll_key_defined(*old(self), key),
        ensures
            final(self).wf(),
            roll_key_effect(*old(self), *final(self), key, acts@),
    {
        self.roll_change_step(key);
        let ghost mid = *self;
        self.refresh_selection();
        proof {
            lemma_roll_change_keeps(*old(self), mid, *self, key);
        }
        Vec::new()
    }
}

/// The change of a piano roll key does not depend on the selection of the resulting state.
proof fn lemma_roll_change_keeps(a: Workspace, mid: Workspace, b: Workspace, key: KeyInput)
    requires
        roll_change(a, mid, key),
        b.sequencer == mid.sequencer,
        b.modal_state == mid.modal_state,
        b.piano_roll_state == (PianoRollState { selected_note_idx: b.piano_roll_state.selected_note_idx, ..mid.piano_roll_state }),
    ensures
        roll_change(a, b, key),
{
    assert(forall|t: usize, p: u8, k: u32, d: u32| roll_at(mid.piano_roll_state, a.piano_roll_state, t, p, k, d) ==> roll_at(b.piano_roll_state, a.piano_roll_state, t, p, k, d));
}

/// The piano roll is in range: the active track among the four, the cursor on a tick of the
/// song and on a MIDI pitch, the snap one of 1, 2, 4, 8 and 16 ticks, and a positive default
/// note length.
pub open spec fn roll_in_range(w: Workspace) -> bool {
    let st = w.piano_roll_state;
    let snap = w.sequencer.snap_division;
    &&& st.active_track_idx < 4
    &&& st.cursor_tick < w.sequencer.max_ticks
    &&& st.cursor_pitch <= 127
    &&& (snap == 1 || snap == 2 || snap == 4 || snap == 8 || snap == 16)
    &&& st.note_duration_default >= 1
}

/// Every piano roll key (that keeps its counters in range) keeps the piano roll in range and
/// the song's length, when the selected note's pitch is at most 128; a key that changes the
/// snap leaves the cursor on a multiple of the new snap.
pub proof fn lemma_roll_key_keeps_range(a: Workspace, b: Workspace, key: KeyInput, acts: Seq<AppAction>)
    requires
        roll_key_effect(a, b, key, acts),
        roll_key_defined(a, key),
        roll_in_range(a),
        selected_note(a) matches Some((_, n)) ==> n.pitch <= 128,
    ensures
        roll_in_range(b),
        b.sequencer.max_ticks == a.sequencer.max_ticks,
        b.sequencer.snap_division != a.sequencer.snap_division ==> b.piano_roll_state.cursor_tick
            % b.sequencer.snap_division == 0,
{
    let ct = a.piano_roll_state.cursor_tick;
    if let KeyCode::Char(c) = key.code {
        if c == '[' || c == ']' {
            let next = if c == '[' {
                snap_coarser(a.sequencer.snap_division)
            } else {
                snap_finer(a.sequencer.snap_division)
            };
            if let Some(n) = next {
                assert((ct / n) * n <= ct) by (nonlinear_arith)
                    requires
                        n > 0,
                ;
                vstd::arithmetic::div_mod::lemma_mod_multiples_basic((ct / n) as int, n as int);
                assert(((ct / n) * n) as u32 == (ct / n) * n);
            }
        }
    }
}

/// A key in the synth editor: Tab and Shift-Tab move the focus along the parameters; Right
/// and Up step the focused parameter of the active track up, Left and Down step it down.
pub open spec fn synth_key_effect(a: Workspace, b: Workspace, key: KeyInput, acts: Seq<AppAction>) -> bool {
    let f = a.focused_synth_field;
    let track = a.piano_roll_state.active_track_idx;
    match key.code {
        KeyCode::Tab => acts.len() == 0 && b == (Workspace { focused_synth_field: field_at((field_index(f) + 1) % 12), ..a }),
        KeyCode::BackTab => acts.len() == 0 && b == (Workspace { focused_synth_field: field_at((field_index(f) + 11) % 12), ..a }),
        KeyCode::Right | KeyCode::Up => b == a && acts == seq![AppAction::AdjustSynth { field: f, track, forward: true }],
        KeyCode::Left | KeyCode::Down => b == a && acts == seq![AppAction::AdjustSynth { field: f, track, forward: false }],
        _ => b == a && acts.len() == 0,
    }
}

/// A key in the mixer: Tab and Shift-Tab cycle the four channel strips; Up and Down change
/// the volume, Left and Right the pan, M toggles mute and S solo of the focused track.
pub open spec fn mixer_key_effect(a: Workspace, b: Workspace, key: KeyInput, acts: Seq<AppAction>) -> bool {
    let t = a.focused_mixer_track;
    let change = |c: MixerChange| b == a && acts == seq![AppAction::AdjustMixer { track: t, change: c }];
    match key.code {
        KeyCode::Tab => acts.len() == 0 && b == (Workspace { focused_mixer_track: ((t + 1) % 4) as usize, ..a }),
        KeyCode::BackTab => acts.len() == 0 && b == (Workspace {
            focused_mixer_track: if t > 0 {
                (t - 1) as usize
            } else {
                3
            },
            ..a
        }),
        KeyCode::Up => change(MixerChange::VolumeUp),
        KeyCode::Down => change(MixerChange::VolumeDown),
        KeyCode::Left => change(MixerChange::PanLeft),
        KeyCode::Right => change(MixerChange::PanRight),
        KeyCode::Char(c) => if c == 'm' || c == 'M' {
            change(MixerChange::ToggleMute)
        } else if c == 's' || c == 'S' {
            change(MixerChange::ToggleSolo)
        } else {
            b == a && acts.len() == 0
        },
        _ => b == a && acts.len() == 0,
    }
}

/// A key in the device manager: Up and Down move round the MIDI port list; Enter
/// disconnects the selected port when it is the connected one (with a toast), and asks to
/// connect it otherwise. Nothing happens without ports.
pub open spec fn device_key_effect(a: Workspace, b: Workspace, key: KeyInput, midi: MidiStatus, acts: Seq<AppAction>) -> bool {
    let i = a.selected_device_idx;
    let n = midi.port_count;
    if n == 0 {
        b == a && acts.len() == 0
    } else {
        match key.code {
            KeyCode::Up => acts.len() == 0 && b == (Workspace {
                selected_device_idx: if i > 0 {
                    (i - 1) as usize
                } else {
                    (n - 1) as usize
                },
                ..a
            }),
            KeyCode::Down => acts.len() == 0 && b == (Workspace { selected_device_idx: ((i + 1) % (n as int)) as usize, ..a }),
            KeyCode::Enter => if midi.connected && midi.selected_port == Some(i) {
                acts == seq![AppAction::DisconnectMidi] && same_except(a, b, false, false, false, true, false)
                    && toasted(a.modal_state, b.modal_state, "✗ MIDI DEVICE DISCONNECTED"@)
            } else {
                b == a && acts == seq![AppAction::ConnectMidi { port: i }]
            },
            _ => b == a && acts.len() == 0,
        }
    }
}

impl Workspace {
    /// Handles a key in the synth editor.
    pub fn handle_synth_input(&mut self, key: KeyInput) -> (acts: Vec<AppAction>)
        requires
            old(self).wf(),
        ensures
            final(self).wf(),
            synth_key_effect(*old(self), *final(self), key, acts@),
    {
        let mut acts: Vec<AppAction> = Vec::new();
        let f = self.focused_synth_field;
        let track = self.piano_roll_state.active_track_idx;
        match key.code {
            KeyCode::Tab => {
                self.focused_synth_field = f.next();
            },
            KeyCode::BackTab => {
                self.focused_synth_field = f.prev();
            },
            KeyCode::Right | KeyCode::Up => {
                acts.push(AppAction::AdjustSynth { field: f, track, forward: true });
            },
            KeyCode::Left | KeyCode::Down => {
                acts.push(AppAction::AdjustSynth { field: f, track, forward: false });
            },
            _ => {},
        }
        acts
    }

    /// Handles a key in the mixer.
    pub fn handle_mixer_input(&mut self, key: KeyInput) -> (acts: Vec<AppAction>)
        requires
            old(self).wf(),
        ensures
            final(self).wf(),
            mixer_key_effect(*old(self), *final(self), key, acts@),
    {
        let mut acts: Vec<AppAction> = Vec::new();
        let t = self.focused_mixer_track;
        match key.code {
            KeyCode::Tab => {
                self.focused_mixer_track = (t + 1) % 4;
            },
            KeyCode::BackTab => {
                if t > 0 {
                    self.focused_mixer_track = t - 1;
                } else {
                    self.focused_mixer_track = 3;
                }
            },
            KeyCode::Up => acts.push(AppAction::AdjustMixer { track: t, change: MixerChange::VolumeUp }),
            KeyCode::Down => acts.push(AppAction::AdjustMixer { track: t, change: MixerChange::VolumeDown }),
            KeyCode::Left => acts.push(AppAction::AdjustMixer { track: t, change: MixerChange::PanLeft }),
            KeyCode::Right => acts.push(AppAction::AdjustMixer { track: t, change: MixerChange::PanRight }),
            KeyCode::Char(c) => {
                if c == 'm' || c == 'M' {
                    acts.push(AppAction::AdjustMixer { track: t, change: MixerChange::ToggleMute });
                } else if c == 's' || c == 'S' {
                    acts.push(AppAction::AdjustMixer { track: t, change: MixerChange::ToggleSolo });
                }
            },
            _ => {},
        }
        acts
    }

    /// Handles a key in the device manager.
    pub fn handle_device_input(&mut self, key: KeyInput, midi: MidiStatus) -> (acts: Vec<AppAction>)
        requires
            old(self).wf(),
            key.code == KeyCode::Down && midi.port_count > 0 ==> old(self).selected_device_idx < usize::MAX,
        ensures
            final(self).wf(),
            device_key_effect(*old(self), *final(self), key, midi, acts@),
    {
        let mut acts: Vec<AppAction> = Vec::new();
        let n = midi.port_count;
        if n == 0 {
            return acts;
        }
        let i = self.selected_device_idx;
        match key.code {
            KeyCode::Up => {
                if i > 0 {
                    self.selected_device_idx = i - 1;
                } else {
                    self.selected_device_idx = n - 1;
                }
            },
            KeyCode::Down => {
                self.selected_device_idx = (i + 1) % n;
            },
            KeyCode::Enter => {
                if midi.connected && midi.selected_port == Some(i) {
                    acts.push(AppAction::DisconnectMidi);
                    self.trigger_toast("✗ MIDI DEVICE DISCONNECTED");
                } else {
                    acts.push(AppAction::ConnectMidi { port: i });
                }
            },
            _ => {},
        }
        acts
    }
}

/// The tab that a digit key selects: 1 the sequencer, 2 the synth editor, 3 the mixer, 4 the
/// devices, 5 the help; only without modifiers.
pub open spec fn digit_tab(key: KeyInput) -> Option<ActiveTab> {
    if key.ctrl || key.shift || key.other_modifiers {
        None
    } else {
        match key.code {
            KeyCode::Char(c) => if c == '1' {
                Some(ActiveTab::Sequencer)
            } else if c == '2' {
                Some(ActiveTab::SynthEditor)
            } else if c == '3' {
                Some(ActiveTab::Mixer)
            } else if c == '4' {
                Some(ActiveTab::Devices)
            } else if c == '5' {
                Some(ActiveTab::Help)
            } else {
                None
            },
            _ => None,
        }
    }
}

/// Whether a key belongs to the global bindings: q and Esc quit, Space, P and R drive the
/// transport, Ctrl-E exports, Ctrl-S saves and Ctrl-O loads.
pub open spec fn is_global_key(key: KeyInput) -> bool {
    match key.code {
        KeyCode::Esc => true,
        KeyCode::Char(c) => c == 'q' || c == ' ' || c == 'p' || c == 'P' || c == 'r' || c == 'R' || (key.ctrl
            && (c == 'e' || c == 's' || c == 'o')),
        _ => false,
    }
}

/// The note that a key plays on the computer keyboard, modifiers aside.
pub open spec fn note_key(key: KeyInput) -> Option<u8> {
    match key.code {
        KeyCode::Char(c) => key_note(c),
        _ => None,
    }
}

/// The file the song is exported to.
pub open spec fn export_file_name() -> Seq<char> {
    "midi-tui-export.mid"@
}

/// Space in the piano roll: the note under the cursor is taken out if there is one; otherwise
/// a note of the default length is placed there and sounds for a moment.
pub open spec fn place_key_effect(a: Workspace, b: Workspace, acts: Seq<AppAction>) -> bool {
    let st = a.piano_roll_state;
    let act = st.active_track_idx;
    let notes = a.sequencer.tracks@[act as int].notes@;
    &&& same_except(a, b, true, false, false, false, false)
    &&& if has_note_at(notes, st.cursor_pitch, st.cursor_tick) {
        &&& with_track_notes(a.sequencer, b.sequencer, act as int, notes_without(notes, st.cursor_pitch, st.cursor_tick))
        &&& acts.len() == 0
    } else {
        &&& with_track_notes(
            a.sequencer,
            b.sequencer,
            act as int,
            notes.push(
                Note {
                    pitch: st.cursor_pitch,
                    velocity: KEYBOARD_VELOCITY,
                    start_tick: st.cursor_tick,
                    duration_ticks: st.note_duration_default,
                },
            ),
        )
        &&& acts == seq![AppAction::PreviewNote { track: act, pitch: st.cursor_pitch, hold_ms: PLACE_PREVIEW_MS, report_release: false }]
    }
}

/// A global binding.
pub open spec fn global_key_effect(a: Workspace, b: Workspace, key: KeyInput, quit: bool, acts: Seq<AppAction>) -> bool {
    let m = a.modal_state;
    match key.code {
        KeyCode::Char(c) => if c == 'q' {
            quit && b == a && acts.len() == 0
        } else if c == ' ' {
            !quit && if a.active_tab != ActiveTab::Sequencer {
                toggle_play_effect(a, b, acts)
            } else {
                place_key_effect(a, b, acts)
            }
        } else if c == 'p' || c == 'P' {
            !quit && toggle_play_effect(a, b, acts)
        } else if c == 'r' || c == 'R' {
            !quit && toggle_record_effect(a, b, acts)
        } else if c == 'e' {
            !quit && b == a && acts.len() == 1 && (acts[0] matches AppAction::ExportMidi { file_name }
                && file_name@ == export_file_name())
        } else if c == 's' {
            !quit && acts.len() == 0 && same_except(a, b, false, false, false, true, false) && dialogs_set(
                m,
                b.modal_state,
                true,
                Seq::empty(),
                m.show_load,
                m.load_selected_idx,
            )
        } else {
            !quit && b == a && acts == seq![AppAction::ListProjects]
        },
        _ => quit && b == a && acts.len() == 0,
    }
}

/// A computer-keyboard key that plays a note: the note sounds on the active track for a
/// moment, its release going to the recorder while recording; while recording and playing
/// the note is held from the current tick with the keyboard velocity.
pub open spec fn keyboard_note_effect(a: Workspace, b: Workspace, note: u8, acts: Seq<AppAction>) -> bool {
    let s = a.sequencer;
    &&& same_except(a, b, false, false, false, false, true)
    &&& b.active_recorded_notes@ == if s.is_recording && s.is_playing {
        a.active_recorded_notes@.insert(note, (s.current_tick, KEYBOARD_VELOCITY))
    } else {
        a.active_recorded_notes@
    }
    &&& acts == seq![
        AppAction::PreviewNote {
            track: a.piano_roll_state.active_track_idx,
            pitch: note,
            hold_ms: KEY_PREVIEW_MS,
            report_release: s.is_recording,
        },
    ]
}

/// A key handled by the active tab.
pub open spec fn tab_key_effect(a: Workspace, b: Workspace, key: KeyInput, midi: MidiStatus, acts: Seq<AppAction>) -> bool {
    match a.active_tab {
        ActiveTab::Sequencer => roll_key_effect(a, b, key, acts),
        ActiveTab::SynthEditor => synth_key_effect(a, b, key, acts),
        ActiveTab::Mixer => mixer_key_effect(a, b, key, acts),
        ActiveTab::Devices => device_key_effect(a, b, key, midi, acts),
        ActiveTab::Help => b == a && acts.len() == 0,
    }
}

/// Whether a key goes past the dialogs, the tab keys, the global bindings and the note keys
/// to the active tab.
pub open spec fn reaches_tab(a: Workspace, key: KeyInput) -> bool {
    &&& !a.modal_state.show_save
    &&& !a.modal_state.show_load
    &&& digit_tab(key) is None
    &&& !is_global_key(key)
    &&& note_key(key) is None
}

/// A key press: an open save or load dialog takes every key; then a digit selects a tab (4
/// also rescans the MIDI ports), the global bindings apply, a note key plays its note, and
/// any other key goes to the active tab. Only q and Esc quit.
pub open spec fn key_press_effect(a: Workspace, b: Workspace, key: KeyInput, midi: MidiStatus, quit: bool, acts: Seq<AppAction>) -> bool {
    if a.modal_state.show_save {
        !quit && save_dialog_key(a, b, key, acts)
    } else if a.modal_state.show_load {
        !quit && load_dialog_key(a, b, key, acts)
    } else if digit_tab(key) is Some {
        &&& !quit
        &&& b == (Workspace { active_tab: digit_tab(key)->0, ..a })
        &&& acts == if digit_tab(key)->0 == ActiveTab::Devices {
            seq![AppAction::RefreshMidiPorts]
        } else {
            Seq::<AppAction>::empty()
        }
    } else if is_global_key(key) {
        global_key_effect(a, b, key, quit, acts)
    } else if note_key(key) is Some {
        !quit && keyboard_note_effect(a, b, note_key(key)->0, acts)
    } else {
        !quit && tab_key_effect(a, b, key, midi, acts)
    }
}

/// The key press keeps its counters in range: the piano roll's and the device list's.
pub open spec fn key_press_defined(a: Workspace, key: KeyInput, midi: MidiStatus) -> bool {
    reaches_tab(a, key) ==> {
        &&& a.active_tab == ActiveTab::Sequencer ==> roll_key_defined(a, key)
        &&& (a.active_tab == ActiveTab::Devices && key.code == KeyCode::Down && midi.port_count > 0)
            ==> a.selected_device_idx < usize::MAX
    }
}

/// In the synth editor, with no dialog open, an arrow key asks to step the focused parameter
/// of the active track: Up and Right forward, Down and Left backward; nothing else changes.
pub proof fn lemma_synth_arrows_step_focused_parameter(
    a: Workspace,
    b: Workspace,
    key: KeyInput,
    midi: MidiStatus,
    quit: bool,
    acts: Seq<AppAction>,
)
    requires
        key_press_effect(a, b, key, midi, quit, acts),
        a.active_tab == ActiveTab::SynthEditor,
        !a.modal_state.show_save,
        !a.modal_state.show_load,
        key.code == KeyCode::Up || key.code == KeyCode::Right || key.code == KeyCode::Down || key.code
            == KeyCode::Left,
    ensures
        !quit,
        b == a,
        acts.len() == 1,
        acts[0] matches AppAction::AdjustSynth { field, track, forward } && field == a.focused_synth_field
            && track == a.piano_roll_state.active_track_idx && forward == (key.code == KeyCode::Up || key.code
            == KeyCode::Right),
{
}

/// In the mixer, with no dialog open, Up and Down ask to raise and lower the focused track's
/// volume, Left and Right to pan it left and right; nothing else changes.
pub proof fn lemma_mixer_arrows_adjust_focused_track(
    a: Workspace,
    b: Workspace,
    key: KeyInput,
    midi: MidiStatus,
    quit: bool,
    acts: Seq<AppAction>,
)
    requires
        key_press_effect(a, b, key, midi, quit, acts),
        a.active_tab == ActiveTab::Mixer,
        !a.modal_state.show_save,
        !a.modal_state.show_load,
        key.code == KeyCode::Up || key.code == KeyCode::Right || key.code == KeyCode::Down || key.code
            == KeyCode::Left,
    ensures
        !quit,
        b == a,
        acts.len() == 1,
        acts[0] matches AppAction::AdjustMixer { track, change } && track == a.focused_mixer_track && change
            == if key.code == KeyCode::Up {
            MixerChange::VolumeUp
        } else if key.code == KeyCode::Down {
            MixerChange::VolumeDown
        } else if key.code == KeyCode::Left {
            MixerChange::PanLeft
        } else {
            MixerChange::PanRight
        },
{
}

impl Workspace {
    fn place_key(&mut self) -> (acts: Vec<AppAction>)
        requires
            old(self).wf(),
        ensures
            final(self).wf(),
            place_key_effect(*old(self), *final(self), acts@),
    {
        let mut acts: Vec<AppAction> = Vec::new();
        let act = self.piano_roll_state.active_track_idx;
        let pitch = self.piano_roll_state.cursor_pitch;
        let tick = self.piano_roll_state.cursor_tick;
        let ghost notes = self.sequencer.tracks@[act as int].notes@;
        if self.sequencer.get_note_at(act, pitch, tick).is_some() {
            self.sequencer.remove_note_at(act, pitch, tick);
        } else {
            proof {
                lemma_filter_all(notes, |n: Note| !crate::sequencer::note_sounds_at(n, pitch, tick));
            }
            self.sequencer.add_note(act, pitch, tick, self.piano_roll_state.note_duration_default, KEYBOARD_VELOCITY);
            acts.push(AppAction::PreviewNote { track: act, pitch, hold_ms: PLACE_PREVIEW_MS, report_release: false });
        }
        acts
    }

    fn keyboard_note(&mut self, note: u8) -> (acts: Vec<AppAction>)
        requires
            old(self).wf(),
        ensures
            final(self).wf(),
            keyboard_note_effect(*old(self), *final(self), note, acts@),
    {
        let mut acts: Vec<AppAction> = Vec::new();
        let track = self.piano_roll_state.active_track_idx;
        if self.sequencer.is_recording && self.sequencer.is_playing {
            self.active_recorded_notes.insert(note, (self.sequencer.current_tick, KEYBOARD_VELOCITY));
        }
        acts.push(
            AppAction::PreviewNote { track, pitch: note, hold_ms: KEY_PREVIEW_MS, report_release: self.sequencer.is_recording },
        );
        acts
    }

    /// Handles a key press; tells whether the application should quit, and what outside work
    /// the key asks for.
    pub fn trigger_key_press(&mut self, key: KeyInput, midi: MidiStatus) -> (r: (bool, Vec<AppAction>))
        requires
            old(self).wf(),
            key_press_defined(*old(self), key, midi),
        ensures
            final(self).wf(),
            key_press_effect(*old(self), *final(self), key, midi, r.0, r.1@),
    {
        if self.modal_state.show_save {
            return (false, self.save_dialog_input(key));
        }
        if self.modal_state.show_load {
            return (false, self.load_dialog_input(key));
        }
        if !key.ctrl && !key.shift && !key.other_modifiers {
            if let KeyCode::Char(c) = key.code {
                if c == '1' {
                    self.active_tab = ActiveTab::Sequencer;
                    return (false, Vec::new());
                } else if c == '2' {
                    self.active_tab = ActiveTab::SynthEditor;
                    return (false, Vec::new());
                } else if c == '3' {
                    self.active_tab = ActiveTab::Mixer;
                    return (false, Vec::new());
                } else if c == '4' {
                    let mut acts: Vec<AppAction> = Vec::new();
                    acts.push(AppAction::RefreshMidiPorts);
                    self.active_tab = ActiveTab::Devices;
                    return (false, acts);
                } else if c == '5' {
                    self.active_tab = ActiveTab::Help;
                    return (false, Vec::new());
                }
            }
        }
        match key.code {
            KeyCode::Esc => {
                return (true, Vec::new());
            },
            KeyCode::Char(c) => {
                if c == 'q' {
                    return (true, Vec::new());
                } else if c == ' ' {
                    let on_roll = match self.active_tab {
                        ActiveTab::Sequencer => true,
                        _ => false,
                    };
                    if on_roll {
                        return (false, self.place_key());
                    } else {
                        return (false, self.toggle_play());
                    }
                } else if c == 'p' || c == 'P' {
                    return (false, self.toggle_play());
                } else if c == 'r' || c == 'R' {
                    return (false, self.toggle_record());
                } else if c == 'e' && key.ctrl {
                    let mut acts: Vec<AppAction> = Vec::new();
                    acts.push(AppAction::ExportMidi { file_name: "midi-tui-export.mid".to_owned() });
                    return (false, acts);
                } else if c == 's' && key.ctrl {
                    self.modal_state.show_save = true;
                    self.modal_state.save_input = String::new();
                    return (false, Vec::new());
                } else if c == 'o' && key.ctrl {
                    let mut acts: Vec<AppAction> = Vec::new();
                    acts.push(AppAction::ListProjects);
                    return (false, acts);
                }
            },
            _ => {},
        }
        if let KeyCode::Char(c) = key.code {
            if let Some(note) = keyboard_key_to_note(c) {
                return (false, self.keyboard_note(note));
            }
        }
        let acts = match self.active_tab {
            ActiveTab::Sequencer => self.handle_piano_roll_input(key),
            ActiveTab::SynthEditor => self.handle_synth_input(key),
            ActiveTab::Mixer => self.handle_mixer_input(key),
            ActiveTab::Devices => self.handle_device_input(key, midi),
            ActiveTab::Help => Vec::new(),
        };
        (false, acts)
    }
}

/// Length of a recorded note released at tick `cur` that began at `start`: the ticks in
/// between, at least one.
pub open spec fn recorded_length(cur: u32, start: u32) -> u32 {
    if cur > start {
        (cur - start) as u32
    } else {
        1
    }
}

/// The notes of a track and the held notes after recording `events` in order, at tick `cur`:
/// a note-on holds its pitch from `cur` while `live` (recording and playing); a note-off of a
/// held pitch places the note, from its start to `cur`, as the sequencer places notes, and
/// lets the pitch go. Other events change nothing.
pub open spec fn record_events(
    notes: Seq<Note>,
    held: Map<u8, (u32, u8)>,
    events: Seq<MidiRecordEvent>,
    live: bool,
    cur: u32,
) -> (Seq<Note>, Map<u8, (u32, u8)>)
    decreases events.len(),
{
    if events.len() == 0 {
        (notes, held)
    } else {
        let (ns, hs) = record_events(notes, held, events.drop_last(), live, cur);
        match events.last() {
            MidiRecordEvent::NoteOn { note, velocity } => if live {
                (ns, hs.insert(note, (cur, velocity)))
            } else {
                (ns, hs)
            },
            MidiRecordEvent::NoteOff { note } => if hs.contains_key(note) {
                let (start, vel) = hs[note];
                (
                    notes_without(ns, note, start).push(
                        Note { pitch: note, velocity: vel, start_tick: start, duration_ticks: recorded_length(cur, start) },
                    ),
                    hs.remove(note),
                )
            } else {
                (ns, hs)
            },
            MidiRecordEvent::ControlChange { .. } => (ns, hs),
        }
    }
}

/// A note held while recording is placed when it is released: from the tick it was pressed,
/// lasting until the release tick (at least one tick), with its velocity, replacing the notes
/// of its pitch that sounded at its start; and it is no longer held.
pub proof fn lemma_release_places_held_note(
    notes: Seq<Note>,
    held: Map<u8, (u32, u8)>,
    note: u8,
    start: u32,
    velocity: u8,
    live: bool,
    cur: u32,
)
    ensures
        record_events(notes, held.insert(note, (start, velocity)), seq![MidiRecordEvent::NoteOff { note }], live, cur)
            == (
            notes_without(notes, note, start).push(
                Note { pitch: note, velocity, start_tick: start, duration_ticks: recorded_length(cur, start) },
            ),
            held.remove(note),
        ),
        recorded_length(cur, start) >= 1,
{
    let events = seq![MidiRecordEvent::NoteOff { note }];
    let h = held.insert(note, (start, velocity));
    assert(events.drop_last() =~= Seq::<MidiRecordEvent>::empty());
    assert(record_events(notes, h, events.drop_last(), live, cur) == (notes, h));
    assert(h.remove(note) =~= held.remove(note));
}

impl Workspace {
    /// Records the MIDI events that arrived since the last frame, in order, onto the active
    /// track.
    pub fn process_recording_events(&mut self, events: Vec<MidiRecordEvent>)
        requires
            old(self).wf(),
        ensures
            final(self).wf(),
            same_except(*old(self), *final(self), true, false, false, false, true),
            ({
                let s = old(self).sequencer;
                let act = old(self).piano_roll_state.active_track_idx;
                let (notes, held) = record_events(
                    s.tracks@[act as int].notes@,
                    old(self).active_recorded_notes@,
                    events@,
                    s.is_recording && s.is_playing,
                    s.current_tick,
                );
                &&& with_track_notes(s, final(self).sequencer, act as int, notes)
                &&& final(self).active_recorded_notes@ == held
            }),
    {
        let act = self.piano_roll_state.active_track_idx;
        let live = self.sequencer.is_recording && self.sequencer.is_playing;
        let cur = self.sequencer.current_tick;
        let ghost start = *self;
        let mut i: usize = 0;
        while i < events.len()
            invariant
                self.wf(),
                0 <= i <= events@.len(),
                act == start.piano_roll_state.active_track_idx,
                live == (start.sequencer.is_recording && start.sequencer.is_playing),
                cur == start.sequencer.current_tick,
                same_except(start, *self, true, false, false, false, true),
                ({
                    let (notes, held) = record_events(
                        start.sequencer.tracks@[act as int].notes@,
                        start.active_recorded_notes@,
                        events@.take(i as int),
                        live,
                        cur,
                    );
                    &&& with_track_notes(start.sequencer, self.sequencer, act as int, notes)
                    &&& self.active_recorded_notes@ == held
                }),
            decreases events@.len() - i,
        {
            let ghost before = *self;
            assert(events@.take(i + 1).drop_last() =~= events@.take(i as int));
            match events[i] {
                MidiRecordEvent::NoteOn { note, velocity } => {
                    if live {
                        self.active_recorded_notes.insert(note, (cur, velocity));
                    }
                },
                MidiRecordEvent::NoteOff { note } => {
                    if let Some((start_tick, velocity)) = self.active_recorded_notes.remove(&note) {
                        let duration = if cur > start_tick {
                            cur - start_tick
                        } else {
                            1
                        };
                        self.sequencer.add_note(act, note, start_tick, duration, velocity);
                    }
                },
                MidiRecordEvent::ControlChange { .. } => {},
            }
            i += 1;
        }
        assert(events@.take(events@.len() as int) =~= events@);
    }
}

/// Whether a mouse event in the sequencer tab falls inside the border of the drawn grid.
pub open spec fn inside_grid(w: Workspace, m: MouseInput) -> bool {
    let a = w.grid_rendered_area;
    &&& w.active_tab == ActiveTab::Sequencer
    &&& a.width > 0
    &&& a.height > 0
    &&& a.x + 1 <= m.column < a.x + a.width - 1
    &&& a.y + 1 <= m.row < a.y + a.height - 1
}

/// The row of the grid under the mouse, counted from the top, as a byte.
pub open spec fn clicked_row(w: Workspace, m: MouseInput) -> u8 {
    ((m.row - w.grid_rendered_area.y - 1) as u16) as u8
}

/// Number of pitch rows of the grid (its height less the border), as a byte.
pub open spec fn grid_rows(w: Workspace) -> int {
    (w.grid_rendered_area.height as u8) - 2
}

/// The grid cell under a mouse event inside the grid: the tick of its column and the pitch
/// of its row, the top row being the highest pitch in view.
pub open spec fn clicked_cell(w: Workspace, m: MouseInput) -> (u32, u8) {
    let st = w.piano_roll_state;
    let cx = m.column - w.grid_rendered_area.x - 1;
    ((st.scroll_tick + cx) as u32, (st.scroll_pitch + grid_rows(w) - 1 - clicked_row(w, m)) as u8)
}

/// The click's arithmetic stays in range: the grid has its border rows, and the cell's pitch
/// and tick are a byte and a tick.
pub open spec fn click_defined(w: Workspace, m: MouseInput) -> bool {
    let st = w.piano_roll_state;
    let cx = m.column - w.grid_rendered_area.x - 1;
    inside_grid(w, m) ==> {
        &&& (w.grid_rendered_area.height as u8) >= 2
        &&& st.scroll_pitch + grid_rows(w) <= 255
        &&& st.scroll_pitch + grid_rows(w) - 1 - clicked_row(w, m) >= 0
        &&& st.scroll_tick + cx <= u32::MAX
    }
}

/// A mouse event in the piano roll. Inside the grid and before the song's end, it moves the
/// cursor to the cell; a left click places a note of the default length there (sounding for
/// a moment) unless one sounds there already, and selects the note under the cursor; a right
/// click takes the cell's notes out and clears the selection. Anything else changes nothing.
pub open spec fn click_effect(a: Workspace, b: Workspace, m: MouseInput, acts: Seq<AppAction>) -> bool {
    let (tick, pitch) = clicked_cell(a, m);
    let st = a.piano_roll_state;
    let act = st.active_track_idx;
    let notes = a.sequencer.tracks@[act as int].notes@;
    if !inside_grid(a, m) || tick >= a.sequencer.max_ticks {
        b == a && acts.len() == 0
    } else {
        &&& same_except(a, b, true, true, false, false, false)
        &&& roll_at(b.piano_roll_state, st, act, pitch, tick, st.note_duration_default)
        &&& match m.kind {
            MouseKind::Down(MouseButton::Left) => {
                &&& if has_note_at(notes, pitch, tick) {
                    b.sequencer == a.sequencer && acts.len() == 0
                } else {
                    &&& with_track_notes(
                        a.sequencer,
                        b.sequencer,
                        act as int,
                        notes.push(
                            Note {
                                pitch,
                                velocity: KEYBOARD_VELOCITY,
                                start_tick: tick,
                                duration_ticks: st.note_duration_default,
                            },
                        ),
                    )
                    &&& acts == seq![AppAction::PreviewNote { track: act, pitch, hold_ms: PLACE_PREVIEW_MS, report_release: false }]
                }
                &&& b.piano_roll_state.selected_note_idx == selection_of(b.sequencer, b.piano_roll_state)
            },
            MouseKind::Down(MouseButton::Right) => {
                &&& with_track_notes(a.sequencer, b.sequencer, act as int, notes_without(notes, pitch, tick))
                &&& b.piano_roll_state.selected_note_idx is None
                &&& acts.len() == 0
            },
            _ => {
                &&& b.sequencer == a.sequencer
                &&& b.piano_roll_state.selected_note_idx == st.selected_note_idx
                &&& acts.len() == 0
            },
        }
    }
}

/// A left click inside the grid, before the song's end, selects the first note of the active
/// track that sounds at the clicked cell: the selection is the index of a note of the clicked
/// pitch whose span `start_tick <= tick < start_tick + duration_ticks` holds the clicked tick,
/// with no such note before it; or nothing, when no note sounds there. This holds whether or
/// not the click placed a note.
pub proof fn lemma_left_click_selects_clicked_note(a: Workspace, b: Workspace, m: MouseInput, acts: Seq<AppAction>)
    requires
        click_effect(a, b, m, acts),
        inside_grid(a, m),
        clicked_cell(a, m).0 < a.sequencer.max_ticks,
        m.kind == MouseKind::Down(MouseButton::Left),
    ensures
        ({
            let (tick, pitch) = clicked_cell(a, m);
            let notes = b.sequencer.tracks@[b.piano_roll_state.active_track_idx as int].notes@;
            &&& b.piano_roll_state.cursor_tick == tick
            &&& b.piano_roll_state.cursor_pitch == pitch
            &&& match b.piano_roll_state.selected_note_idx {
                Some(k) => {
                    &&& k < notes.len()
                    &&& notes[k as int].pitch == pitch
                    &&& notes[k as int].start_tick <= tick < notes[k as int].start_tick + notes[k as int].duration_ticks
                    &&& forall|j: int|
                        0 <= j < k ==> !((#[trigger] notes[j]).pitch == pitch && notes[j].start_tick <= tick < notes[j].start_tick
                            + notes[j].duration_ticks)
                },
                None => forall|j: int|
                    0 <= j < notes.len() ==> !((#[trigger] notes[j]).pitch == pitch && notes[j].start_tick <= tick
                        < notes[j].start_tick + notes[j].duration_ticks),
            }
        }),
{
    let (tick, pitch) = clicked_cell(a, m);
    let notes = b.sequencer.tracks@[b.piano_roll_state.active_track_idx as int].notes@;
    if let Some(k) = b.piano_roll_state.selected_note_idx {
        let st = b.piano_roll_state;
        assert(st.selected_note_idx == selection_of(b.sequencer, st));
        assert(has_note_at(notes, pitch, tick));
        crate::sequencer::lemma_first_note_exists(notes, pitch, tick);
        let c = choose|kk: int| first_note_at(b.sequencer.tracks@[st.active_track_idx as int].notes@, st.cursor_pitch, st.cursor_tick, kk);
        assert(first_note_at(notes, pitch, tick, c));
        assert(k == c as usize);
        assert(b.sequencer.tracks@[st.active_track_idx as int].notes.len() <= usize::MAX);
        assert(k as int == c);
        assert forall|j: int| 0 <= j < k implies !((#[trigger] notes[j]).pitch == pitch && notes[j].start_tick <= tick
            < notes[j].start_tick + notes[j].duration_ticks) by {
            assert(!crate::sequencer::note_sounds_at(notes[j], pitch, tick));
        }
    } else {
        assert forall|j: int| 0 <= j < notes.len() implies !((#[trigger] notes[j]).pitch == pitch && notes[j].start_tick
            <= tick < notes[j].start_tick + notes[j].duration_ticks) by {
            if notes[j].pitch == pitch && notes[j].start_tick <= tick && tick < notes[j].start_tick + notes[j].duration_ticks {
                assert(crate::sequencer::note_sounds_at(notes[j], pitch, tick));
                assert(has_note_at(notes, pitch, tick));
            }
        }
    }
}

impl Workspace {
    /// Handles a mouse event on the screen.
    pub fn handle_mouse_click(&mut self, mouse: MouseInput) -> (acts: Vec<AppAction>)
        requires
            old(self).wf(),
            click_defined(*old(self), mouse),
        ensures
            final(self).wf(),
            click_effect(*old(self), *final(self), mouse, acts@),
    {
        let mut acts: Vec<AppAction> = Vec::new();
        match self.active_tab {
            ActiveTab::Sequencer => {},
            _ => {
                return acts;
            },
        }
        let area = self.grid_rendered_area;
        if area.width == 0 || area.height == 0 {
            return acts;
        }
        let col = mouse.column as u32;
        let row = mouse.row as u32;
        let x = area.x as u32;
        let y = area.y as u32;
        if !(col >= x + 1 && col < x + area.width as u32 - 1 && row >= y + 1 && row < y + area.height as u32 - 1) {
            return acts;
        }
        let clicked_x: u32 = col - x - 1;
        let clicked_y_wide: u16 = mouse.row - area.y - 1;
        let clicked_y: u8 = clicked_y_wide as u8;
        let grid_height: u8 = area.height as u8 - 2;
        let tick = self.piano_roll_state.scroll_tick + clicked_x;
        let pitch = self.piano_roll_state.scroll_pitch + grid_height - 1 - clicked_y;
        if tick >= self.sequencer.max_ticks {
            return acts;
        }
        self.piano_roll_state.cursor_tick = tick;
        self.piano_roll_state.cursor_pitch = pitch;
        let act = self.piano_roll_state.active_track_idx;
        match mouse.kind {
            MouseKind::Down(MouseButton::Left) => {
                let ghost notes = self.sequencer.tracks@[act as int].notes@;
                if find_note_index(&self.sequencer.tracks[act].notes, pitch, tick).is_none() {
                    proof {
                        lemma_filter_all(notes, |n: Note| !crate::sequencer::note_sounds_at(n, pitch, tick));
                    }
                    self.sequencer.add_note(act, pitch, tick, self.piano_roll_state.note_duration_default, KEYBOARD_VELOCITY);
                    acts.push(AppAction::PreviewNote { track: act, pitch, hold_ms: PLACE_PREVIEW_MS, report_release: false });
                }
                self.refresh_selection();
            },
            MouseKind::Down(MouseButton::Right) => {
                self.sequencer.remove_note_at(act, pitch, tick);
                self.piano_roll_state.selected_note_idx = None;
            },
            _ => {},
        }
        acts
    }

    /// Whether a mouse event keeps the click's arithmetic in range.
    pub fn click_in_range(&self, mouse: MouseInput) -> (r: bool)
        ensures
            r == click_defined(*self, mouse),
    {
        let area = self.grid_rendered_area;
        let col = mouse.column as u32;
        let row = mouse.row as u32;
        let x = area.x as u32;
        let y = area.y as u32;
        let on_roll = match self.active_tab {
            ActiveTab::Sequencer => true,
            _ => false,
        };
        if !(on_roll && area.width > 0 && area.height > 0 && col >= x + 1 && col < x + area.width as u32 - 1
            && row >= y + 1 && row < y + area.height as u32 - 1) {
            return true;
        }
        let clicked_x: u64 = (col - x - 1) as u64;
        let clicked_y_wide: u16 = mouse.row - area.y - 1;
        let clicked_y: u8 = clicked_y_wide as u8;
        let rows_byte: u8 = area.height as u8;
        if rows_byte < 2 {
            return false;
        }
        let top = self.piano_roll_state.scroll_pitch as u32 + (rows_byte - 2) as u32;
        top <= 255 && top >= 1 + clicked_y as u32 && self.piano_roll_state.scroll_tick as u64 + clicked_x
            <= u32::MAX as u64
    }
}

impl Workspace {
    /// Whether a key press keeps the counters in range.
    pub fn key_press_in_range(&self, key: KeyInput, midi: MidiStatus) -> (r: bool)
        requires
            self.wf(),
        ensures
            r == key_press_defined(*self, key, midi),
    {
        let plain = !key.ctrl && !key.shift && !key.other_modifiers;
        let (is_digit, is_global, is_note) = match key.code {
            KeyCode::Char(c) => (
                plain && (c == '1' || c == '2' || c == '3' || c == '4' || c == '5'),
                c == 'q' || c == ' ' || c == 'p' || c == 'P' || c == 'r' || c == 'R' || (key.ctrl && (c == 'e'
                    || c == 's' || c == 'o')),
                keyboard_key_to_note(c).is_some(),
            ),
            KeyCode::Esc => (false, true, false),
            _ => (false, false, false),
        };
        if self.modal_state.show_save || self.modal_state.show_load || is_digit || is_global || is_note {
            return true;
        }
        match self.active_tab {
            ActiveTab::Sequencer => {
                let snap = self.sequencer.snap_division;
                let st = self.piano_roll_state;
                match key.code {
                    KeyCode::Right => if key.shift {
                        match self.selection() {
                            Some((_, n)) => n.duration_ticks as u64 + snap as u64 <= u32::MAX as u64,
                            None => true,
                        }
                    } else {
                        st.cursor_tick as u64 + snap as u64 <= u32::MAX as u64
                    },
                    KeyCode::Char(c) => !(c == '+' || c == '=') || st.note_duration_default < u32::MAX,
                    _ => true,
                }
            },
            ActiveTab::Devices => {
                let down = match key.code {
                    KeyCode::Down => true,
                    _ => false,
                };
                !(down && midi.port_count > 0) || self.selected_device_idx < usize::MAX
            },
            _ => true,
        }
    }

    /// After a successful export: a toast names the file.
    pub fn finish_export(&mut self, file_name: &str)
        requires
            old(self).wf(),
        ensures
            final(self).wf(),
            same_except(*old(self), *final(self), false, false, false, true, false),
            toasted(old(self).modal_state, final(self).modal_state, "✔ EXPORTED MIDI: "@ + file_name@),
    {
        let mut msg = String::new();
        push_str(&mut msg, "✔ EXPORTED MIDI: ");
        push_str(&mut msg, file_name);
        self.toast_string(msg);
    }
}

} // verus!
