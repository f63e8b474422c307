# midi_tui

A terminal music workstation: a four-track step sequencer with a piano roll, a software
synthesizer, MIDI input and Standard MIDI File export.

- `src/` is the verified library. It holds the sequencer and its playback step, the MIDI
  message decoding, the MIDI file track layout (the bytes are written by `midly`), the
  piano roll's cell rendering rules, the keyboard and mouse handling of the interface as a
  state machine that returns the outside work it asks for, project file naming, and the
  discrete parts of the synthesizer (envelope stages, drum selection, solo and mute).
- `tests/` runs the library on concrete inputs.
- `app/` is the program around it: the terminal (crossterm, ratatui), audio output (cpal),
  MIDI ports (midir), the floating-point sound engine, project files (serde_json) and the
  main loop that carries out the library's requested actions.
