//! MIDI note naming, the computer-keyboard note map and the decoding of incoming MIDI messages.
use vstd::prelude::*;
use crate::text::{digit_char, nat_text, int_text, push_char, push_decimal, push_str};

verus! {

/// An event that the MIDI input hands to the recorder.
#[derive(Debug, Clone, Copy, PartialEq, Eq, Structural)]
pub enum MidiRecordEvent {
    NoteOn { note: u8, velocity: u8 },
    NoteOff { note: u8 },
    ControlChange { controller: u8, value: u8 },
}

/// The name of the pitch class `i` (0 = C ... 11 = B), sharps written with `#`.
pub open spec fn note_class_name(i: int) -> Seq<char> {
    if i == 0 {
        seq!['C']
    } else if i == 1 {
        seq!['C', '#']
    } else if i == 2 {
        seq!['D']
    } else if i == 3 {
        seq!['D', '#']
    } else if i == 4 {
        seq!['E']
    } else if i == 5 {
        seq!['F']
    } else if i == 6 {
        seq!['F', '#']
    } else if i == 7 {
        seq!['G']
    } else if i == 8 {
        seq!['G', '#']
    } else if i == 9 {
        seq!['A']
    } else if i == 10 {
        seq!['A', '#']
    } else {
        seq!['B']
    }
}

/// Scientific pitch notation of a MIDI note: its pitch class followed by its octave, where
/// note 60 is "C4".
pub open spec fn pitch_name(pitch: u8) -> Seq<char> {
    note_class_name((pitch % 12) as int) + int_text(pitch / 12 - 1)
}

/// Names a MIDI note in scientific pitch notation ("C4" for 60, "A#4" for 70).
pub fn pitch_to_name(pitch: u8) -> (name: String)
    ensures
        name@ == pitch_name(pitch),
{
    let mut s = String::new();
    let class = pitch % 12;
    let letter = if class <= 1 {
        'C'
    } else if class <= 3 {
        'D'
    } else if class == 4 {
        'E'
    } else if class <= 6 {
        'F'
    } else if class <= 8 {
        'G'
    } else if class <= 10 {
        'A'
    } else {
        'B'
    };
    push_char(&mut s, letter);
    if class == 1 || class == 3 || class == 6 || class == 8 || class == 10 {
        push_char(&mut s, '#');
    }
    let octave = pitch / 12;
    if octave == 0 {
        push_char(&mut s, '-');
        push_char(&mut s, '1');
        assert(nat_text(1) == seq![digit_char(1)]);
    } else {
        push_decimal(&mut s, (octave - 1) as u32);
    }
    assert(s@ == pitch_name(pitch));
    s
}

/// The display name of a MIDI control-change controller number.
pub open spec fn cc_name(controller: u8) -> Seq<char> {
    if controller == 1 {
        "Modulation Wheel"@
    } else if controller == 7 {
        "Volume Fader"@
    } else if controller == 10 {
        "Stereo Pan"@
    } else if controller == 11 {
        "Expression"@
    } else if controller == 64 {
        "Sustain Pedal"@
    } else if controller == 71 {
        "Filter Resonance (Q)"@
    } else if controller == 72 {
        "Release Time"@
    } else if controller == 73 {
        "Attack Time"@
    } else if controller == 74 {
        "Filter Cutoff (Freq)"@
    } else if controller == 75 {
        "Sustain Level"@
    } else if controller == 79 {
        "Decay Time"@
    } else {
        "General Purpose Controller"@
    }
}

/// Names a MIDI control-change controller.
pub fn get_cc_name(controller: u8) -> (name: &'static str)
    ensures
        name@ == cc_name(controller),
{
    match controller {
        1 => "Modulation Wheel",
        7 => "Volume Fader",
        10 => "Stereo Pan",
        11 => "Expression",
        64 => "Sustain Pedal",
        71 => "Filter Resonance (Q)",
        72 => "Release Time",
        73 => "Attack Time",
        74 => "Filter Cutoff (Freq)",
        75 => "Sustain Level",
        79 => "Decay Time",
        _ => "General Purpose Controller",
    }
}

/// The note that a key of the computer keyboard plays: the home row from 'a' (C4) to ';' (E5)
/// holds the white keys, the row above holds the black keys.
pub open spec fn key_note(c: char) -> Option<u8> {
    if c == 'a' {
        Some(60u8)
    } else if c == 's' {
        Some(62u8)
    } else if c == 'd' {
        Some(64u8)
    } else if c == 'f' {
        Some(65u8)
    } else if c == 'g' {
        Some(67u8)
    } else if c == 'h' {
        Some(69u8)
    } else if c == 'j' {
        Some(71u8)
    } else if c == 'k' {
        Some(72u8)
    } else if c == 'l' {
        Some(74u8)
    } else if c == ';' {
        Some(76u8)
    } else if c == 'w' {
        Some(61u8)
    } else if c == 'e' {
        Some(63u8)
    } else if c == 't' {
        Some(66u8)
    } else if c == 'y' {
        Some(68u8)
    } else if c == 'u' {
        Some(70u8)
    } else if c == 'o' {
        Some(73u8)
    } else if c == 'p' {
        Some(75u8)
    } else {
        None
    }
}

/// Maps a computer-keyboard character to the MIDI note it plays, if any.
pub fn keyboard_key_to_note(c: char) -> (note: Option<u8>)
    ensures
        note == key_note(c),
{
    match c {
        'a' => Some(60),
        's' => Some(62),
        'd' => Some(64),
        'f' => Some(65),
        'g' => Some(67),
        'h' => Some(69),
        'j' => Some(71),
        'k' => Some(72),
        'l' => Some(74),
        ';' => Some(76),
        'w' => Some(61),
        'e' => Some(63),
        't' => Some(66),
        'y' => Some(68),
        'u' => Some(70),
        'o' => Some(73),
        'p' => Some(75),
        _ => None,
    }
}

/// The computer keyboard plays each of the notes C4 to E5 from exactly one key: every key
/// that plays a note plays one in that range, and two different keys never play the same note.
pub proof fn lemma_keyboard_map_injective(c1: char, c2: char)
    ensures
        key_note(c1) matches Some(n) ==> 60 <= n <= 76,
        key_note(c1) is Some && key_note(c1) == key_note(c2) ==> c1 == c2,
{
}

/// The synthesizer parameter that a control-change controller is wired to.
#[derive(Debug, Clone, Copy, PartialEq, Eq, Structural)]
pub enum CcTarget {
    /// CC 7: track volume, 0..127 scaled to 0.0..1.0.
    Volume,
    /// CC 10: track pan, 0..127 scaled to -1.0..1.0.
    Pan,
    /// CC 73: envelope attack, 0..127 scaled to 0.001 s..2.0 s.
    Attack,
    /// CC 79: envelope decay, 0..127 scaled to 0.01 s..3.0 s.
    Decay,
    /// CC 75: envelope sustain level, 0..127 scaled to 0.0..1.0.
    Sustain,
    /// CC 72: envelope release, 0..127 scaled to 0.01 s..4.0 s.
    Release,
    /// CC 74: filter cutoff, 0..127 scaled to 50 Hz..8000 Hz.
    FilterCutoff,
    /// CC 71: filter resonance, 0..127 scaled to 0.1..5.0.
    FilterResonance,
    /// Any other controller: only logged and recorded.
    Unmapped,
}

/// The parameter that a controller number is wired to.
pub open spec fn cc_target(controller: u8) -> CcTarget {
    if controller == 7 {
        CcTarget::Volume
    } else if controller == 10 {
        CcTarget::Pan
    } else if controller == 73 {
        CcTarget::Attack
    } else if controller == 79 {
        CcTarget::Decay
    } else if controller == 75 {
        CcTarget::Sustain
    } else if controller == 72 {
        CcTarget::Release
    } else if controller == 74 {
        CcTarget::FilterCutoff
    } else if controller == 71 {
        CcTarget::FilterResonance
    } else {
        CcTarget::Unmapped
    }
}

/// Looks up the parameter that a controller number is wired to.
pub fn control_target(controller: u8) -> (t: CcTarget)
    ensures
        t == cc_target(controller),
{
    match controller {
        7 => CcTarget::Volume,
        10 => CcTarget::Pan,
        73 => CcTarget::Attack,
        79 => CcTarget::Decay,
        75 => CcTarget::Sustain,
        72 => CcTarget::Release,
        74 => CcTarget::FilterCutoff,
        71 => CcTarget::FilterResonance,
        _ => CcTarget::Unmapped,
    }
}

/// What the synthesizer is told to do for an incoming MIDI message. Velocities and values
/// stay in their 0..127 MIDI range; the synthesizer scales them.
#[derive(Debug, Clone, Copy, PartialEq, Eq, Structural)]
pub enum MidiCommand {
    NoteOn { track: usize, note: u8, velocity: u8 },
    NoteOff { track: usize, note: u8 },
    ControlChange { track: usize, controller: u8, value: u8, target: CcTarget },
}

/// A decoded MIDI message: the synthesizer command, the event for the recorder and the line
/// shown in the MIDI monitor.
pub struct DecodedMidi {
    pub command: MidiCommand,
    pub record: MidiRecordEvent,
    pub log: String,
}

/// Monitor line for a note that starts.
pub open spec fn note_on_log(note: u8, velocity: u8) -> Seq<char> {
    "Note ON: "@ + pitch_name(note) + " (MIDI Note "@ + nat_text(note as nat) + ", Velocity "@
        + nat_text(velocity as nat) + ")"@
}

/// Monitor line for a note that stops.
pub open spec fn note_off_log(note: u8) -> Seq<char> {
    "Note OFF: "@ + pitch_name(note) + " (MIDI Note "@ + nat_text(note as nat) + ")"@
}

/// Monitor line for a control change.
pub open spec fn cc_log(controller: u8, value: u8) -> Seq<char> {
    "Control Change: CC "@ + nat_text(controller as nat) + " ("@ + cc_name(controller) + ") = "@
        + nat_text(value as nat)
}

/// The track a MIDI channel plays on: channels 0 to 3 map to tracks 0 to 3, higher channels
/// to track 3.
pub open spec fn channel_track(status: u8) -> usize {
    if (status & 0x0F) < 3 {
        (status & 0x0F) as usize
    } else {
        3
    }
}

/// The meaning of a raw MIDI message, if it is one that the workstation handles: note on
/// (status 0x9n with at least three bytes; velocity 0 counts as note off), note off (status
/// 0x8n with at least two bytes) and control change (status 0xBn with at least three bytes).
pub open spec fn midi_meaning(m: Seq<u8>) -> Option<(MidiCommand, MidiRecordEvent, Seq<char>)> {
    if m.len() == 0 {
        None
    } else {
        let status = m[0];
        let kind = status & 0xF0;
        let track = channel_track(status);
        if kind == 0x90 && m.len() >= 3 {
            if m[2] > 0 {
                Some((
                    MidiCommand::NoteOn { track, note: m[1], velocity: m[2] },
                    MidiRecordEvent::NoteOn { note: m[1], velocity: m[2] },
                    note_on_log(m[1], m[2]),
                ))
            } else {
                Some((
                    MidiCommand::NoteOff { track, note: m[1] },
                    MidiRecordEvent::NoteOff { note: m[1] },
                    note_off_log(m[1]),
                ))
            }
        } else if kind == 0x80 && m.len() >= 2 {
            Some((
                MidiCommand::NoteOff { track, note: m[1] },
                MidiRecordEvent::NoteOff { note: m[1] },
                note_off_log(m[1]),
            ))
        } else if kind == 0xB0 && m.len() >= 3 {
            Some((
                MidiCommand::ControlChange {
                    track,
                    controller: m[1],
                    value: m[2],
                    target: cc_target(m[1]),
                },
                MidiRecordEvent::ControlChange { controller: m[1], value: m[2] },
                cc_log(m[1], m[2]),
            ))
        } else {
            None
        }
    }
}

fn note_off_text(note: u8) -> (s: String)
    ensures
        s@ == note_off_log(note),
{
    let mut s = String::new();
    push_str(&mut s, "Note OFF: ");
    let name = pitch_to_name(note);
    push_str(&mut s, name.as_str());
    push_str(&mut s, " (MIDI Note ");
    push_decimal(&mut s, note as u32);
    push_str(&mut s, ")");
    s
}

/// Decodes a raw MIDI message into the synthesizer command, the recorder event and the
/// monitor line; `None` for messages that the workstation ignores.
pub fn parse_midi_message(message: &[u8]) -> (d: Option<DecodedMidi>)
    ensures
        match midi_meaning(message@) {
            None => d is None,
            Some((command, record, log)) => d matches Some(x) && x.command == command
                && x.record == record && x.log@ == log,
        },
{
    if message.len() == 0 {
        return None;
    }
    let status = message[0];
    let kind = status & 0xF0;
    let channel = status & 0x0F;
    let track: usize = if channel < 3 {
        channel as usize
    } else {
        3
    };
    if kind == 0x90 && message.len() >= 3 {
        let note = message[1];
        let velocity = message[2];
        if velocity > 0 {
            let mut s = String::new();
            push_str(&mut s, "Note ON: ");
            let name = pitch_to_name(note);
            push_str(&mut s, name.as_str());
            push_str(&mut s, " (MIDI Note ");
            push_decimal(&mut s, note as u32);
            push_str(&mut s, ", Velocity ");
            push_decimal(&mut s, velocity as u32);
            push_str(&mut s, ")");
            Some(
                DecodedMidi {
                    command: MidiCommand::NoteOn { track, note, velocity },
                    record: MidiRecordEvent::NoteOn { note, velocity },
                    log: s,
                },
            )
        } else {
            Some(
                DecodedMidi {
                    command: MidiCommand::NoteOff { track, note },
                    record: MidiRecordEvent::NoteOff { note },
                    log: note_off_text(note),
                },
            )
        }
    } else if kind == 0x80 && message.len() >= 2 {
        let note = message[1];
        Some(
            DecodedMidi {
                command: MidiCommand::NoteOff { track, note },
                record: MidiRecordEvent::NoteOff { note },
                log: note_off_text(note),
            },
        )
    } else if kind == 0xB0 && message.len() >= 3 {
        let controller = message[1];
        let value = message[2];
        let mut s = String::new();
        push_str(&mut s, "Control Change: CC ");
        push_decimal(&mut s, controller as u32);
        push_str(&mut s, " (");
        push_str(&mut s, get_cc_name(controller));
        push_str(&mut s, ") = ");
        push_decimal(&mut s, value as u32);
        Some(
            DecodedMidi {
                command: MidiCommand::ControlChange {
                    track,
                    controller,
                    value,
                    target: control_target(controller),
                },
                record: MidiRecordEvent::ControlChange { controller, value },
                log: s,
            },
        )
    } else {
        None
    }
}

/// A control change reaches a synthesizer parameter only for controllers 7 (volume), 10
/// (pan), 71 (filter resonance), 72 (release), 73 (attack), 74 (filter cutoff), 75 (sustain)
/// and 79 (decay); any other controller, the sustain pedal 64 among them, is only logged and
/// recorded. The decoded command keeps the controller and value, on the channel's track.
pub proof fn lemma_control_change_wiring(status: u8, controller: u8, value: u8)
    requires
        status & 0xF0 == 0xB0,
    ensures
        midi_meaning(seq![status, controller, value]) matches Some((MidiCommand::ControlChange { track, controller: c, value: v, target }, rec, _))
            && c == controller && v == value && track == channel_track(status)
            && rec == (MidiRecordEvent::ControlChange { controller, value })
            && (target == CcTarget::Volume <==> controller == 7)
            && (target == CcTarget::Pan <==> controller == 10)
            && (target == CcTarget::FilterResonance <==> controller == 71)
            && (target == CcTarget::Release <==> controller == 72)
            && (target == CcTarget::Attack <==> controller == 73)
            && (target == CcTarget::FilterCutoff <==> controller == 74)
            && (target == CcTarget::Sustain <==> controller == 75)
            && (target == CcTarget::Decay <==> controller == 79)
            && (target == CcTarget::Unmapped <==> !(controller == 7 || controller == 10 || controller == 71
                || controller == 72 || controller == 73 || controller == 74 || controller == 75 || controller == 79)),
{
    let m = seq![status, controller, value];
    assert(m[0] == status && m[1] == controller && m[2] == value);
}

/// A note-on message with velocity zero means the same as a note-off message for that note
/// on the same channel.
pub proof fn lemma_zero_velocity_is_note_off(channel: u8, note: u8, vel: u8)
    requires
        channel < 16,
    ensures
        midi_meaning(seq![(0x90u8 + channel) as u8, note, 0u8]) == midi_meaning(
            seq![(0x80u8 + channel) as u8, note, vel],
        ),
{
    let on: u8 = (0x90u8 + channel) as u8;
    let off: u8 = (0x80u8 + channel) as u8;
    assert(on & 0xF0 == 0x90 && off & 0xF0 == 0x80 && on & 0x0F == off & 0x0F) by (bit_vector)
        requires channel < 16, on == 0x90u8 + channel, off == 0x80u8 + channel;
}

} // verus!
