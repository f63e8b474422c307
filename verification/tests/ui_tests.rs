use midi_tui::sequencer::Sequencer;
use midi_tui::ui::{
    black_key_index, grid_cell, is_black_key, keyboard_layout, snap_label, sparkle_column, white_key_index,
    ActiveTab, CellColor, CellStyle, GridCell, ModalState, PianoRollState, SynthFocusField,
};

#[test]
fn tabs_are_numbered_in_header_order() {
    assert_eq!(ActiveTab::Sequencer.index(), 0);
    assert_eq!(ActiveTab::Help.index(), 4);
}

#[test]
fn synth_focus_cycles_through_twelve_fields() {
    let mut f = SynthFocusField::InstrumentType;
    for _ in 0..12 {
        f = f.next();
    }
    assert_eq!(f, SynthFocusField::InstrumentType);
    assert_eq!(SynthFocusField::InstrumentType.prev(), SynthFocusField::DelayFeedback);
    assert_eq!(SynthFocusField::Waveform.prev(), SynthFocusField::InstrumentType);
    assert_eq!(SynthFocusField::FmIndex.next().prev(), SynthFocusField::FmIndex);
}

#[test]
fn black_keys_and_snap_names() {
    assert!(is_black_key(61));
    assert!(is_black_key(70));
    assert!(!is_black_key(60));
    assert!(!is_black_key(64));
    assert_eq!(snap_label(1), "1/16");
    assert_eq!(snap_label(2), "1/8");
    assert_eq!(snap_label(4), "1/4");
    assert_eq!(snap_label(8), "1/2");
    assert_eq!(snap_label(16), "1 Bar");
}

#[test]
fn toast_counts_down_and_goes_away() {
    let mut m = ModalState::new();
    m.toast_message = Some("hi".to_string());
    m.toast_ticks = 1;
    m.tick_toast();
    assert_eq!(m.toast_ticks, 0);
    assert_eq!(m.toast_message.as_deref(), Some("hi"));
    m.tick_toast();
    assert!(m.toast_message.is_none());
}

#[test]
fn view_scrolls_to_follow_the_cursor() {
    let mut st = PianoRollState::new();
    assert_eq!(PianoRollState::default(), st);
    assert_eq!(st.scroll_pitch, 48);
    st.cursor_pitch = 80;
    st.cursor_tick = 40;
    st.scroll_to_cursor(24, 32);
    assert_eq!(st.scroll_pitch, 80 - 24 + 1);
    assert_eq!(st.scroll_tick, 40 - 32 + 1);
    st.cursor_pitch = 30;
    st.cursor_tick = 0;
    st.scroll_to_cursor(24, 32);
    assert_eq!(st.scroll_pitch, 30);
    assert_eq!(st.scroll_tick, 0);
}

#[test]
fn grid_cells_show_notes_cursor_and_playhead() {
    let mut seq = Sequencer::new();
    seq.add_note(0, 60, 4, 3, 100);
    let mut st = PianoRollState::new();
    st.cursor_pitch = 50;
    st.cursor_tick = 30;
    let note_start = grid_cell(&seq, &st, 60, 4);
    assert_eq!(
        note_start,
        GridCell { glyph: '█', style: CellStyle { fg: Some(CellColor::Base), bg: Some(CellColor::Track), bold: true } }
    );
    assert_eq!(grid_cell(&seq, &st, 60, 5).glyph, '═');
    assert_eq!(grid_cell(&seq, &st, 61, 16).glyph, '┃');
    assert_eq!(grid_cell(&seq, &st, 61, 8).glyph, '│');
    assert_eq!(
        grid_cell(&seq, &st, 61, 9),
        GridCell { glyph: '░', style: CellStyle { fg: Some(CellColor::BlackKeyDot), bg: None, bold: false } }
    );
    assert_eq!(grid_cell(&seq, &st, 50, 30).glyph, '╬');
    assert_eq!(grid_cell(&seq, &st, 50, 9).glyph, '─');
    assert_eq!(grid_cell(&seq, &st, 60, 64).glyph, '·');
    seq.is_playing = true;
    seq.current_tick = 5;
    assert_eq!(
        grid_cell(&seq, &st, 60, 5),
        GridCell { glyph: '═', style: CellStyle { fg: Some(CellColor::Base), bg: Some(CellColor::Green), bold: true } }
    );
    seq.is_playing = false;
    st.selected_note_idx = Some(0);
    assert_eq!(grid_cell(&seq, &st, 60, 6).style.bg, Some(CellColor::Yellow));
    seq.is_playing = true;
    seq.current_tick = 9;
    assert_eq!(
        grid_cell(&seq, &st, 62, 9),
        GridCell { glyph: '█', style: CellStyle { fg: Some(CellColor::Green), bg: Some(CellColor::Surface1), bold: true } }
    );
}

#[test]
fn keyboard_visualizer_geometry() {
    assert_eq!(keyboard_layout(0, 84), (4, 0));
    assert_eq!(keyboard_layout(10, 50), (2, 14));
    assert_eq!(keyboard_layout(0, 200), (5, 47));
    assert_eq!(keyboard_layout(65000, 84), (4, 65000));
    assert_eq!(keyboard_layout(65000, 90), (4, 65003));
    assert_eq!(white_key_index(48), Some(0));
    assert_eq!(white_key_index(60), Some(7));
    assert_eq!(white_key_index(83), Some(20));
    assert_eq!(white_key_index(61), None);
    assert_eq!(black_key_index(61), Some(8));
    assert_eq!(black_key_index(82), Some(20));
    assert_eq!(black_key_index(84), None);
    assert_eq!(sparkle_column(60, 10, 4), 10 + 28 + 2);
    assert_eq!(sparkle_column(61, 10, 4), 10 + 32);
    assert_eq!(sparkle_column(90, 10, 4), 10);
}
