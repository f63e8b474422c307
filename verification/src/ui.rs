//! Screen state of the interface: tabs, focus, dialogs, the piano roll's cursor and view, and
//! how each grid cell of the piano roll looks.
use vstd::prelude::*;
use crate::sequencer::{Sequencer, Note, note_sounds_at, first_note_at, has_note_at};

verus! {

/// The workspace shown in the body of the screen.
#[derive(Debug, Clone, Copy, PartialEq, Eq, Structural)]
pub enum ActiveTab {
    Sequencer,
    SynthEditor,
    Mixer,
    Devices,
    Help,
}

impl ActiveTab {
    /// Position of the tab in the header, from 0.
    pub fn index(self) -> (i: usize)
        ensures
            i == match self {
                ActiveTab::Sequencer => 0usize,
                ActiveTab::SynthEditor => 1,
                ActiveTab::Mixer => 2,
                ActiveTab::Devices => 3,
                ActiveTab::Help => 4,
            },
    {
        match self {
            ActiveTab::Sequencer => 0,
            ActiveTab::SynthEditor => 1,
            ActiveTab::Mixer => 2,
            ActiveTab::Devices => 3,
            ActiveTab::Help => 4,
        }
    }
}

/// The parameter that the synth editor's arrow keys adjust.
#[derive(Debug, Clone, Copy, PartialEq, Eq, Structural)]
pub enum SynthFocusField {
    InstrumentType,
    Waveform,
    Attack,
    Decay,
    Sustain,
    Release,
    FmRatio,
    FmIndex,
    FilterCutoff,
    FilterResonance,
    DelayTime,
    DelayFeedback,
}

/// Position of a field in the editor's focus order.
pub open spec fn field_index(f: SynthFocusField) -> int {
    match f {
        SynthFocusField::InstrumentType => 0,
        SynthFocusField::Waveform => 1,
        SynthFocusField::Attack => 2,
        SynthFocusField::Decay => 3,
        SynthFocusField::Sustain => 4,
        SynthFocusField::Release => 5,
        SynthFocusField::FmRatio => 6,
        SynthFocusField::FmIndex => 7,
        SynthFocusField::FilterCutoff => 8,
        SynthFocusField::FilterResonance => 9,
        SynthFocusField::DelayTime => 10,
        SynthFocusField::DelayFeedback => 11,
    }
}

/// The field at a position of the focus order.
pub open spec fn field_at(i: int) -> SynthFocusField {
    if i == 0 {
        SynthFocusField::InstrumentType
    } else if i == 1 {
        SynthFocusField::Waveform
    } else if i == 2 {
        SynthFocusField::Attack
    } else if i == 3 {
        SynthFocusField::Decay
    } else if i == 4 {
        SynthFocusField::Sustain
    } else if i == 5 {
        SynthFocusField::Release
    } else if i == 6 {
        SynthFocusField::FmRatio
    } else if i == 7 {
        SynthFocusField::FmIndex
    } else if i == 8 {
        SynthFocusField::FilterCutoff
    } else if i == 9 {
        SynthFocusField::FilterResonance
    } else if i == 10 {
        SynthFocusField::DelayTime
    } else {
        SynthFocusField::DelayFeedback
    }
}

impl SynthFocusField {
    /// The field after this one in the focus order, wrapping from the last to the first.
    pub fn next(self) -> (r: SynthFocusField)
        ensures
            r == field_at((field_index(self) + 1) % 12),
    {
        match self {
            SynthFocusField::InstrumentType => SynthFocusField::Waveform,
            SynthFocusField::Waveform => SynthFocusField::Attack,
            SynthFocusField::Attack => SynthFocusField::Decay,
            SynthFocusField::Decay => SynthFocusField::Sustain,
            SynthFocusField::Sustain => SynthFocusField::Release,
            SynthFocusField::Release => SynthFocusField::FmRatio,
            SynthFocusField::FmRatio => SynthFocusField::FmIndex,
            SynthFocusField::FmIndex => SynthFocusField::FilterCutoff,
            SynthFocusField::FilterCutoff => SynthFocusField::FilterResonance,
            SynthFocusField::FilterResonance => SynthFocusField::DelayTime,
            SynthFocusField::DelayTime => SynthFocusField::DelayFeedback,
            SynthFocusField::DelayFeedback => SynthFocusField::InstrumentType,
        }
    }

    /// The field before this one in the focus order, wrapping from the first to the last.
    pub fn prev(self) -> (r: SynthFocusField)
        ensures
            r == field_at((field_index(self) + 11) % 12),
    {
        match self {
            SynthFocusField::InstrumentType => SynthFocusField::DelayFeedback,
            SynthFocusField::Waveform => SynthFocusField::InstrumentType,
            SynthFocusField::Attack => SynthFocusField::Waveform,
            SynthFocusField::Decay => SynthFocusField::Attack,
            SynthFocusField::Sustain => SynthFocusField::Decay,
            SynthFocusField::Release => SynthFocusField::Sustain,
            SynthFocusField::FmRatio => SynthFocusField::Release,
            SynthFocusField::FmIndex => SynthFocusField::FmRatio,
            SynthFocusField::FilterCutoff => SynthFocusField::FmIndex,
            SynthFocusField::FilterResonance => SynthFocusField::FilterCutoff,
            SynthFocusField::DelayTime => SynthFocusField::FilterResonance,
            SynthFocusField::DelayFeedback => SynthFocusField::DelayTime,
        }
    }
}

/// Moving the focus forward then back, or back then forward, returns to the same field; the
/// focus order visits each of the twelve fields once.
pub proof fn lemma_focus_cycle(f: SynthFocusField)
    ensures
        field_at((field_index(field_at((field_index(f) + 1) % 12)) + 11) % 12) == f,
        field_at((field_index(field_at((field_index(f) + 11) % 12)) + 1) % 12) == f,
        field_at(field_index(f)) == f,
        0 <= field_index(f) < 12,
{
}

/// The mixer control that the focus is on.
#[derive(Debug, Clone, Copy, PartialEq, Eq, Structural)]
pub enum MixerFocusField {
    TrackVolume,
    TrackPan,
}

/// The save and load dialogs and the toast message.
#[derive(Debug, Clone)]
pub struct ModalState {
    pub show_save: bool,
    pub save_input: String,
    pub show_load: bool,
    pub load_files: Vec<String>,
    pub load_selected_idx: usize,
    pub toast_message: Option<String>,
    /// Frames left before the toast goes away.
    pub toast_ticks: usize,
}

impl ModalState {
    /// No dialog open, no toast.
    pub fn new() -> (m: ModalState)
        ensures
            !m.show_save && !m.show_load,
            m.save_input@.len() == 0,
            m.load_files@.len() == 0,
            m.load_selected_idx == 0,
            m.toast_message is None,
            m.toast_ticks == 0,
    {
        ModalState {
            show_save: false,
            save_input: String::new(),
            show_load: false,
            load_files: Vec::new(),
            load_selected_idx: 0,
            toast_message: None,
            toast_ticks: 0,
        }
    }

    /// One rendered frame of the toast: it counts down, and is dropped once the count is spent.
    pub fn tick_toast(&mut self)
        ensures
            final(self).show_save == old(self).show_save,
            final(self).save_input == old(self).save_input,
            final(self).show_load == old(self).show_load,
            final(self).load_files == old(self).load_files,
            final(self).load_selected_idx == old(self).load_selected_idx,
            old(self).toast_message is None ==> final(self).toast_message is None
                && final(self).toast_ticks == old(self).toast_ticks,
            old(self).toast_message is Some && old(self).toast_ticks > 0 ==> final(self).toast_message
                == old(self).toast_message && final(self).toast_ticks == old(self).toast_ticks - 1,
            old(self).toast_message is Some && old(self).toast_ticks == 0 ==> final(self).toast_message is None
                && final(self).toast_ticks == 0,
    {
        if self.toast_message.is_some() {
            if self.toast_ticks > 0 {
                self.toast_ticks = self.toast_ticks - 1;
            } else {
                self.toast_message = None;
            }
        }
    }
}

/// The piano roll's cursor, view and selection.
#[derive(Debug, Clone, Copy, PartialEq, Eq, Structural)]
pub struct PianoRollState {
    pub active_track_idx: usize,
    pub scroll_tick: u32,
    pub scroll_pitch: u8,
    pub cursor_tick: u32,
    pub cursor_pitch: u8,
    pub selected_note_idx: Option<usize>,
    /// Length in ticks of a note placed with the keyboard or the mouse.
    pub note_duration_default: u32,
}

impl Default for PianoRollState {
    /// The starting view, as `PianoRollState::new`.
    fn default() -> (s: PianoRollState)
        ensures
            s == (PianoRollState {
                active_track_idx: 0,
                scroll_tick: 0,
                scroll_pitch: 48,
                cursor_tick: 0,
                cursor_pitch: 60,
                selected_note_idx: None,
                note_duration_default: 4,
            }),
    {
        PianoRollState::new()
    }
}

impl PianoRollState {
    /// First track, view from tick 0 and C3 (48), cursor on C4 (60) at tick 0, nothing
    /// selected, new notes one beat (4 ticks) long.
    pub fn new() -> (s: PianoRollState)
        ensures
            s == (PianoRollState {
                active_track_idx: 0,
                scroll_tick: 0,
                scroll_pitch: 48,
                cursor_tick: 0,
                cursor_pitch: 60,
                selected_note_idx: None,
                note_duration_default: 4,
            }),
    {
        PianoRollState {
            active_track_idx: 0,
            scroll_tick: 0,
            scroll_pitch: 48,
            cursor_tick: 0,
            cursor_pitch: 60,
            selected_note_idx: None,
            note_duration_default: 4,
        }
    }

    /// Scrolls the view just enough for the cursor to be inside a grid of `grid_height`
    /// pitches and `grid_width` ticks: a cursor below or left of the view becomes its first
    /// row or column, one above or right of it its last.
    pub fn scroll_to_cursor(&mut self, grid_height: usize, grid_width: usize)
        requires
            1 <= grid_height <= 255,
            1 <= grid_width,
            old(self).scroll_pitch + grid_height <= 255,
            old(self).scroll_tick + grid_width <= u32::MAX,
            grid_width <= u32::MAX,
        ensures
            final(self).scroll_pitch <= final(self).cursor_pitch < final(self).scroll_pitch + grid_height,
            final(self).scroll_tick <= final(self).cursor_tick < final(self).scroll_tick + grid_width,
            old(self).scroll_pitch <= old(self).cursor_pitch < old(self).scroll_pitch + grid_height
                ==> final(self).scroll_pitch == old(self).scroll_pitch,
            old(self).cursor_pitch < old(self).scroll_pitch ==> final(self).scroll_pitch == old(self).cursor_pitch,
            old(self).cursor_pitch >= old(self).scroll_pitch + grid_height ==> final(self).scroll_pitch
                == old(self).cursor_pitch - grid_height + 1,
            old(self).scroll_tick <= old(self).cursor_tick < old(self).scroll_tick + grid_width
                ==> final(self).scroll_tick == old(self).scroll_tick,
            old(self).cursor_tick < old(self).scroll_tick ==> final(self).scroll_tick == old(self).cursor_tick,
            old(self).cursor_tick >= old(self).scroll_tick + grid_width ==> final(self).scroll_tick
                == old(self).cursor_tick - grid_width + 1,
            final(self).active_track_idx == old(self).active_track_idx,
            final(self).cursor_tick == old(self).cursor_tick,
            final(self).cursor_pitch == old(self).cursor_pitch,
            final(self).selected_note_idx == old(self).selected_note_idx,
            final(self).note_duration_default == old(self).note_duration_default,
    {
        let h = grid_height as u8;
        let max_pitch = self.scroll_pitch + h - 1;
        if self.cursor_pitch < self.scroll_pitch {
            self.scroll_pitch = self.cursor_pitch;
        } else if self.cursor_pitch > max_pitch {
            self.scroll_pitch = self.cursor_pitch - h + 1;
        }
        let w = grid_width as u32;
        let max_tick = self.scroll_tick + (w - 1);
        if self.cursor_tick < self.scroll_tick {
            self.scroll_tick = self.cursor_tick;
        } else if self.cursor_tick > max_tick {
            self.scroll_tick = self.cursor_tick - w + 1;
        }
    }
}

/// Whether a pitch is a black key of the piano (C#, D#, F#, G#, A#).
pub open spec fn black_key(pitch: u8) -> bool {
    let c = pitch % 12;
    c == 1 || c == 3 || c == 6 || c == 8 || c == 10
}

/// Tells whether a pitch is a black key of the piano.
pub fn is_black_key(pitch: u8) -> (b: bool)
    ensures
        b == black_key(pitch),
{
    let c = pitch % 12;
    c == 1 || c == 3 || c == 6 || c == 8 || c == 10
}

/// The slot of a note among the 21 white keys of the on-screen keyboard, which shows the three
/// octaves from C3 (48) to B5 (83); `None` for black keys and notes off the keyboard.
pub open spec fn white_key_slot(note: u8) -> Option<int> {
    let o = (note - 48) / 12;
    let c = (note - 48) % 12;
    if 48 <= note <= 83 && !black_key(note) {
        Some(
            7 * o + if c < 5 {
                c / 2
            } else {
                (c + 1) / 2
            },
        )
    } else {
        None
    }
}

/// The white-key boundary that a black key of the on-screen keyboard sits on (C#3 on the
/// first, between C3 and D3); `None` for white keys and notes off the keyboard.
pub open spec fn black_key_slot(note: u8) -> Option<int> {
    let o = (note - 48) / 12;
    let c = (note - 48) % 12;
    if 48 <= note <= 83 && black_key(note) {
        Some(
            7 * o + if c < 5 {
                (c + 1) / 2
            } else {
                (c + 2) / 2
            },
        )
    } else {
        None
    }
}

/// The width of a white key for a keyboard area `width` columns wide: a 21st of it, at least
/// 2 and at most 5 columns.
pub open spec fn white_key_width(width: u16) -> u16 {
    let w = width / 21;
    if w < 2 {
        2
    } else if w > 5 {
        5
    } else {
        w
    }
}

/// The geometry of the on-screen keyboard in an area starting at column `x`: the width of a
/// white key and the column where the 21 white keys, centred in the area, begin.
pub fn keyboard_layout(x: u16, width: u16) -> (r: (u16, u16))
    requires
        21 * white_key_width(width) <= width,
        x + (width - 21 * white_key_width(width)) / 2 <= u16::MAX,
    ensures
        r.0 == white_key_width(width),
        r.1 == x + (width - 21 * r.0) / 2,
{
    let w = width / 21;
    let key_width = if w < 2 {
        2
    } else if w > 5 {
        5
    } else {
        w
    };
    (key_width, x + (width - key_width * 21) / 2)
}

/// The slot of a note among the white keys of the on-screen keyboard.
pub fn white_key_index(note: u8) -> (r: Option<u16>)
    ensures
        match white_key_slot(note) {
            Some(k) => r == Some(k as u16),
            None => r is None,
        },
{
    match note {
        48 => Some(0),
        50 => Some(1),
        52 => Some(2),
        53 => Some(3),
        55 => Some(4),
        57 => Some(5),
        59 => Some(6),
        60 => Some(7),
        62 => Some(8),
        64 => Some(9),
        65 => Some(10),
        67 => Some(11),
        69 => Some(12),
        71 => Some(13),
        72 => Some(14),
        74 => Some(15),
        76 => Some(16),
        77 => Some(17),
        79 => Some(18),
        81 => Some(19),
        83 => Some(20),
        _ => None,
    }
}

/// The white-key boundary that a black key of the on-screen keyboard sits on.
pub fn black_key_index(note: u8) -> (r: Option<u16>)
    ensures
        match black_key_slot(note) {
            Some(k) => r == Some(k as u16),
            None => r is None,
        },
{
    match note {
        49 => Some(1),
        51 => Some(2),
        54 => Some(4),
        56 => Some(5),
        58 => Some(6),
        61 => Some(8),
        63 => Some(9),
        66 => Some(11),
        68 => Some(12),
        70 => Some(13),
        73 => Some(15),
        75 => Some(16),
        78 => Some(18),
        80 => Some(19),
        82 => Some(20),
        _ => None,
    }
}

/// The column where the sparkles of a sounding note rise: the middle of its white key, or the
/// boundary its black key sits on; the keyboard's first column for a note off the keyboard.
pub open spec fn spark_column(note: u8, offset_x: u16, key_width: u16) -> int {
    match white_key_slot(note) {
        Some(k) => offset_x + k * key_width + key_width / 2,
        None => match black_key_slot(note) {
            Some(k) => offset_x + k * key_width,
            None => offset_x as int,
        },
    }
}

/// The column where the sparkles of a sounding note rise on the keyboard.
pub fn sparkle_column(note: u8, offset_x: u16, key_width: u16) -> (x: u16)
    requires
        offset_x + 20 * key_width + key_width / 2 <= u16::MAX,
    ensures
        x == spark_column(note, offset_x, key_width),
{
    if let Some(k) = white_key_index(note) {
        assert(k * key_width <= 20 * key_width) by (nonlinear_arith)
            requires
                k <= 20,
        ;
        offset_x + k * key_width + key_width / 2
    } else if let Some(k) = black_key_index(note) {
        assert(k * key_width <= 20 * key_width) by (nonlinear_arith)
            requires
                k <= 20,
        ;
        offset_x + k * key_width
    } else {
        offset_x
    }
}

/// The note value of a grid snap in ticks, as written in the interface.
pub open spec fn snap_text(snap: u32) -> Seq<char> {
    if snap == 1 {
        "1/16"@
    } else if snap == 2 {
        "1/8"@
    } else if snap == 4 {
        "1/4"@
    } else if snap == 8 {
        "1/2"@
    } else {
        "1 Bar"@
    }
}

/// Names a grid snap: 1 tick is "1/16", 2 "1/8", 4 "1/4", 8 "1/2", anything else "1 Bar".
pub fn snap_label(snap: u32) -> (s: &'static str)
    ensures
        s@ == snap_text(snap),
{
    match snap {
        1 => "1/16",
        2 => "1/8",
        4 => "1/4",
        8 => "1/2",
        _ => "1 Bar",
    }
}

/// The colours of the piano roll grid, by role.
#[derive(Debug, Clone, Copy, PartialEq, Eq, Structural)]
pub enum CellColor {
    /// Grid lines and highlighted rows and columns.
    Surface0,
    /// The cursor crossing and the playhead over empty cells.
    Surface1,
    /// Dots of black-key rows.
    BlackKeyDot,
    /// Dots of white-key rows.
    WhiteKeyDot,
    /// The cursor and the selected note.
    Yellow,
    /// The colour of the active track.
    Track,
    /// Text over filled cells.
    Base,
    /// The playhead.
    Green,
}

/// Foreground, background and weight of a grid cell.
#[derive(Debug, Clone, Copy, PartialEq, Eq, Structural)]
pub struct CellStyle {
    pub fg: Option<CellColor>,
    pub bg: Option<CellColor>,
    pub bold: bool,
}

/// How one cell of the piano roll grid is drawn.
#[derive(Debug, Clone, Copy, PartialEq, Eq, Structural)]
pub struct GridCell {
    pub glyph: char,
    pub style: CellStyle,
}

/// The look of an empty cell inside the song: a heavy bar on measures, a light bar on beats,
/// dots elsewhere, darker on black-key rows; with the cursor's row and column highlighted and
/// the crossing marked.
pub open spec fn base_cell(s: Sequencer, st: PianoRollState, pitch: u8, tick: u32) -> GridCell {
    let is_beat = tick % s.ticks_per_beat == 0;
    let is_measure = tick % (s.ticks_per_beat * 4) as u32 == 0;
    let glyph = if is_measure {
        '┃'
    } else if is_beat {
        '│'
    } else {
        '░'
    };
    let fg = if is_measure || is_beat {
        CellColor::Surface0
    } else if black_key(pitch) {
        CellColor::BlackKeyDot
    } else {
        CellColor::WhiteKeyDot
    };
    let row = pitch == st.cursor_pitch;
    let col = tick == st.cursor_tick;
    if row && col {
        GridCell {
            glyph: '╬',
            style: CellStyle { fg: Some(CellColor::Yellow), bg: Some(CellColor::Surface1), bold: true },
        }
    } else if row {
        GridCell {
            glyph: if glyph == '░' {
                '─'
            } else {
                glyph
            },
            style: CellStyle { fg: Some(fg), bg: Some(CellColor::Surface0), bold: false },
        }
    } else if col {
        GridCell {
            glyph: if glyph == '░' {
                '│'
            } else {
                glyph
            },
            style: CellStyle { fg: Some(fg), bg: Some(CellColor::Surface0), bold: false },
        }
    } else {
        GridCell { glyph, style: CellStyle { fg: Some(fg), bg: None, bold: false } }
    }
}

/// The look of a cell covered by a note: a block at its start, a bar along its length, in the
/// track colour, or yellow when the note is the selected one (same pitch and start as the note
/// at the selected index).
pub open spec fn note_cell(notes: Seq<Note>, st: PianoRollState, n: Note, tick: u32) -> GridCell {
    let selected = match st.selected_note_idx {
        Some(i) => i < notes.len() && notes[i as int].pitch == n.pitch && notes[i as int].start_tick
            == n.start_tick,
        None => false,
    };
    GridCell {
        glyph: if n.start_tick == tick {
            '█'
        } else {
            '═'
        },
        style: CellStyle {
            fg: Some(CellColor::Base),
            bg: Some(
                if selected {
                    CellColor::Yellow
                } else {
                    CellColor::Track
                },
            ),
            bold: true,
        },
    }
}

/// How the cell of `pitch` and `tick` of the active track's grid is drawn: past the song's end
/// a dim dot; otherwise the empty-cell look, replaced by the first note sounding there if any,
/// then the playhead's column marked green while playing.
pub open spec fn grid_cell_look(s: Sequencer, st: PianoRollState, pitch: u8, tick: u32) -> GridCell {
    if tick >= s.max_ticks {
        GridCell { glyph: '·', style: CellStyle { fg: Some(CellColor::Surface0), bg: None, bold: false } }
    } else {
        let notes = s.tracks@[st.active_track_idx as int].notes@;
        let found = has_note_at(notes, pitch, tick);
        let cell = if found {
            let k = choose|k: int| first_note_at(notes, pitch, tick, k);
            note_cell(notes, st, notes[k], tick)
        } else {
            base_cell(s, st, pitch, tick)
        };
        if s.is_playing && s.current_tick == tick {
            if found {
                GridCell {
                    glyph: cell.glyph,
                    style: CellStyle { fg: cell.style.fg, bg: Some(CellColor::Green), bold: cell.style.bold },
                }
            } else {
                GridCell {
                    glyph: if cell.glyph == '░' || cell.glyph == '─' {
                        '█'
                    } else {
                        cell.glyph
                    },
                    style: CellStyle { fg: Some(CellColor::Green), bg: Some(CellColor::Surface1), bold: true },
                }
            }
        } else {
            cell
        }
    }
}

/// A cell where a note sounds (inside the song, off the playhead) is drawn with the selected
/// background exactly when the note at the selected index has the same pitch and the same
/// start tick as the first note sounding there; so two notes of one pitch with different
/// starts are never both drawn as selected.
pub proof fn lemma_selected_cell_is_selected_note(s: Sequencer, st: PianoRollState, pitch: u8, tick: u32, k: int)
    requires
        tick < s.max_ticks,
        !(s.is_playing && s.current_tick == tick),
        first_note_at(s.tracks@[st.active_track_idx as int].notes@, pitch, tick, k),
    ensures
        ({
            let notes = s.tracks@[st.active_track_idx as int].notes@;
            (grid_cell_look(s, st, pitch, tick).style.bg == Some(CellColor::Yellow)) == (st.selected_note_idx matches Some(
                i,
            ) && i < notes.len() && notes[i as int].pitch == notes[k].pitch && notes[i as int].start_tick
                == notes[k].start_tick)
        }),
{
    let notes = s.tracks@[st.active_track_idx as int].notes@;
    assert(note_sounds_at(notes[k], pitch, tick));
    assert(has_note_at(notes, pitch, tick));
    let c = choose|c: int| first_note_at(notes, pitch, tick, c);
    assert(first_note_at(notes, pitch, tick, c));
    if c < k {
        assert(!note_sounds_at(notes[c], pitch, tick));
    } else if k < c {
        assert(!note_sounds_at(notes[k], pitch, tick));
    }
}

/// Works out how a cell of the piano roll grid is drawn.
pub fn grid_cell(s: &Sequencer, st: &PianoRollState, pitch: u8, tick: u32) -> (c: GridCell)
    requires
        st.active_track_idx < s.tracks@.len(),
        s.ticks_per_beat > 0,
        s.ticks_per_beat * 4 <= u32::MAX,
    ensures
        c == grid_cell_look(*s, *st, pitch, tick),
{
    if tick >= s.max_ticks {
        return GridCell { glyph: '·', style: CellStyle { fg: Some(CellColor::Surface0), bg: None, bold: false } };
    }
    let is_beat = tick % s.ticks_per_beat == 0;
    let is_measure = tick % (s.ticks_per_beat * 4) == 0;
    let glyph = if is_measure {
        '┃'
    } else if is_beat {
        '│'
    } else {
        '░'
    };
    let fg = if is_measure || is_beat {
        CellColor::Surface0
    } else if is_black_key(pitch) {
        CellColor::BlackKeyDot
    } else {
        CellColor::WhiteKeyDot
    };
    let row = pitch == st.cursor_pitch;
    let col = tick == st.cursor_tick;
    let base = if row && col {
        GridCell {
            glyph: '╬',
            style: CellStyle { fg: Some(CellColor::Yellow), bg: Some(CellColor::Surface1), bold: true },
        }
    } else if row {
        GridCell {
            glyph: if glyph == '░' {
                '─'
            } else {
                glyph
            },
            style: CellStyle { fg: Some(fg), bg: Some(CellColor::Surface0), bold: false },
        }
    } else if col {
        GridCell {
            glyph: if glyph == '░' {
                '│'
            } else {
                glyph
            },
            style: CellStyle { fg: Some(fg), bg: Some(CellColor::Surface0), bold: false },
        }
    } else {
        GridCell { glyph, style: CellStyle { fg: Some(fg), bg: None, bold: false } }
    };
    assert(base == base_cell(*s, *st, pitch, tick));
    let notes = &s.tracks[st.active_track_idx].notes;
    let found = crate::sequencer::find_note_index(notes, pitch, tick);
    let cell = match found {
        Some(k) => {
            let n = notes[k];
            let selected = match st.selected_note_idx {
                Some(i) => i < notes.len() && notes[i].pitch == n.pitch && notes[i].start_tick == n.start_tick,
                None => false,
            };
            proof {
                let kk = choose|kk: int| first_note_at(notes@, pitch, tick, kk);
                assert(first_note_at(notes@, pitch, tick, kk));
                if kk < k {
                    assert(!note_sounds_at(notes@[kk], pitch, tick));
                } else if kk > k {
                    assert(!note_sounds_at(notes@[k as int], pitch, tick));
                }
                assert(kk == k);
            }
            GridCell {
                glyph: if n.start_tick == tick {
                    '█'
                } else {
                    '═'
                },
                style: CellStyle {
                    fg: Some(CellColor::Base),
                    bg: Some(
                        if selected {
                            CellColor::Yellow
                        } else {
                            CellColor::Track
                        },
                    ),
                    bold: true,
                },
            }
        },
        None => base,
    };
    if s.is_playing && s.current_tick == tick {
        if found.is_some() {
            GridCell {
                glyph: cell.glyph,
                style: CellStyle { fg: cell.style.fg, bg: Some(CellColor::Green), bold: cell.style.bold },
            }
        } else {
            GridCell {
                glyph: if cell.glyph == '░' || cell.glyph == '─' {
                    '█'
                } else {
                    cell.glyph
                },
                style: CellStyle { fg: Some(CellColor::Green), bg: Some(CellColor::Surface1), bold: true },
            }
        }
    } else {
        cell
    }
}

} // verus!
