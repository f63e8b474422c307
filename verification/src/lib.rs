//! A terminal music workstation: a step sequencer with a piano roll, MIDI input decoding,
//! Standard MIDI File export and the editing rules of the user interface.
pub mod text;
pub mod midi;
pub mod seq_lemmas;
pub mod sequencer;
pub mod midi_file;
pub mod synth;
pub mod visualizer;
pub mod ui;
pub mod names;
pub mod workspace;
