//! The discrete side of the synthesizer: instrument and waveform kinds, drum selection, the
//! envelope's stage machine, solo and mute, and the delay line's read position.
use vstd::prelude::*;

verus! {

/// Oscillator shape of the subtractive engine.
#[derive(Debug, Clone, Copy, PartialEq, Eq, Structural)]
pub enum Waveform {
    Sine,
    Square,
    Saw,
    Triangle,
}

/// Synthesis engine of a track.
#[derive(Debug, Clone, Copy, PartialEq, Eq, Structural)]
pub enum InstrumentType {
    Subtractive,
    Fm,
    Plucked,
    Drum,
    Additive,
    Supersaw,
}

/// Stage of an ADSR envelope.
#[derive(Debug, Clone, Copy, PartialEq, Eq, Structural)]
pub enum EnvelopeState {
    Idle,
    Attack,
    Decay,
    Sustain,
    Release,
}

/// Sound of the drum engine.
#[derive(Debug, Clone, Copy, PartialEq, Eq, Structural)]
pub enum DrumType {
    Kick,
    Snare,
    HiHat,
}

/// Position of an instrument type in the editor's cycle.
pub open spec fn instrument_index(t: InstrumentType) -> int {
    match t {
        InstrumentType::Subtractive => 0,
        InstrumentType::Fm => 1,
        InstrumentType::Plucked => 2,
        InstrumentType::Drum => 3,
        InstrumentType::Additive => 4,
        InstrumentType::Supersaw => 5,
    }
}

/// The instrument type at a position of the editor's cycle.
pub open spec fn instrument_at(i: int) -> InstrumentType {
    if i == 0 {
        InstrumentType::Subtractive
    } else if i == 1 {
        InstrumentType::Fm
    } else if i == 2 {
        InstrumentType::Plucked
    } else if i == 3 {
        InstrumentType::Drum
    } else if i == 4 {
        InstrumentType::Additive
    } else {
        InstrumentType::Supersaw
    }
}

/// The instrument type after `t` (forward) or before it (backward) in the cycle
/// Subtractive, FM, Plucked, Drum, Additive, Supersaw.
pub fn next_instrument_type(t: InstrumentType, forward: bool) -> (r: InstrumentType)
    ensures
        r == instrument_at(
            if forward {
                (instrument_index(t) + 1) % 6
            } else {
                (instrument_index(t) + 5) % 6
            },
        ),
{
    match (t, forward) {
        (InstrumentType::Subtractive, true) => InstrumentType::Fm,
        (InstrumentType::Fm, true) => InstrumentType::Plucked,
        (InstrumentType::Plucked, true) => InstrumentType::Drum,
        (InstrumentType::Drum, true) => InstrumentType::Additive,
        (InstrumentType::Additive, true) => InstrumentType::Supersaw,
        (InstrumentType::Supersaw, true) => InstrumentType::Subtractive,
        (InstrumentType::Subtractive, false) => InstrumentType::Supersaw,
        (InstrumentType::Fm, false) => InstrumentType::Subtractive,
        (InstrumentType::Plucked, false) => InstrumentType::Fm,
        (InstrumentType::Drum, false) => InstrumentType::Plucked,
        (InstrumentType::Additive, false) => InstrumentType::Drum,
        (InstrumentType::Supersaw, false) => InstrumentType::Additive,
    }
}

/// Position of a waveform in the editor's cycle.
pub open spec fn waveform_index(w: Waveform) -> int {
    match w {
        Waveform::Sine => 0,
        Waveform::Square => 1,
        Waveform::Saw => 2,
        Waveform::Triangle => 3,
    }
}

/// The waveform at a position of the editor's cycle.
pub open spec fn waveform_at(i: int) -> Waveform {
    if i == 0 {
        Waveform::Sine
    } else if i == 1 {
        Waveform::Square
    } else if i == 2 {
        Waveform::Saw
    } else {
        Waveform::Triangle
    }
}

/// The waveform after `w` (forward) or before it (backward) in the cycle Sine, Square, Saw,
/// Triangle.
pub fn next_waveform(w: Waveform, forward: bool) -> (r: Waveform)
    ensures
        r == waveform_at(
            if forward {
                (waveform_index(w) + 1) % 4
            } else {
                (waveform_index(w) + 3) % 4
            },
        ),
{
    match (w, forward) {
        (Waveform::Sine, true) => Waveform::Square,
        (Waveform::Square, true) => Waveform::Saw,
        (Waveform::Saw, true) => Waveform::Triangle,
        (Waveform::Triangle, true) => Waveform::Sine,
        (Waveform::Sine, false) => Waveform::Triangle,
        (Waveform::Square, false) => Waveform::Sine,
        (Waveform::Saw, false) => Waveform::Square,
        (Waveform::Triangle, false) => Waveform::Saw,
    }
}

/// Stepping the instrument cycle forward and then backward, or backward and then forward,
/// comes back to the start; six steps forward go round the whole cycle.
pub proof fn lemma_instrument_cycle(t: InstrumentType)
    ensures
        instrument_at((instrument_index(instrument_at((instrument_index(t) + 1) % 6)) + 5) % 6) == t,
        instrument_at((instrument_index(instrument_at((instrument_index(t) + 5) % 6)) + 1) % 6) == t,
        instrument_at(instrument_index(t)) == t,
        0 <= instrument_index(t) < 6,
{
}

/// Stepping the waveform cycle forward and then backward, or backward and then forward, comes
/// back to the start.
pub proof fn lemma_waveform_cycle(w: Waveform)
    ensures
        waveform_at((waveform_index(waveform_at((waveform_index(w) + 1) % 4)) + 3) % 4) == w,
        waveform_at((waveform_index(waveform_at((waveform_index(w) + 3) % 4)) + 1) % 4) == w,
        waveform_at(waveform_index(w)) == w,
        0 <= waveform_index(w) < 4,
{
}

/// The drum a note plays: C2 (36) kick, D2 (38) snare, F#2 (42) hi-hat; other notes by pitch
/// class, C to E kick, F to A snare, A# and B hi-hat.
pub open spec fn drum_for_note(note: u8) -> DrumType {
    if note == 36 {
        DrumType::Kick
    } else if note == 38 {
        DrumType::Snare
    } else if note == 42 {
        DrumType::HiHat
    } else if note % 12 <= 4 {
        DrumType::Kick
    } else if note % 12 <= 9 {
        DrumType::Snare
    } else {
        DrumType::HiHat
    }
}

/// Picks the drum sound for a note of the drum engine.
pub fn drum_type_for_note(note: u8) -> (d: DrumType)
    ensures
        d == drum_for_note(note),
{
    match note {
        36 => DrumType::Kick,
        38 => DrumType::Snare,
        42 => DrumType::HiHat,
        _ => {
            let rem = note % 12;
            if rem <= 4 {
                DrumType::Kick
            } else if rem <= 9 {
                DrumType::Snare
            } else {
                DrumType::HiHat
            }
        },
    }
}

impl EnvelopeState {
    /// The stage after one sample. `stage_done` tells whether the current stage's time has
    /// run out (or the stage has no length): attack moves on to decay, decay to sustain,
    /// release to idle; sustain and idle stay.
    pub fn advance(self, stage_done: bool) -> (r: EnvelopeState)
        ensures
            r == match self {
                EnvelopeState::Idle => EnvelopeState::Idle,
                EnvelopeState::Attack => if stage_done {
                    EnvelopeState::Decay
                } else {
                    EnvelopeState::Attack
                },
                EnvelopeState::Decay => if stage_done {
                    EnvelopeState::Sustain
                } else {
                    EnvelopeState::Decay
                },
                EnvelopeState::Sustain => EnvelopeState::Sustain,
                EnvelopeState::Release => if stage_done {
                    EnvelopeState::Idle
                } else {
                    EnvelopeState::Release
                },
            },
    {
        match self {
            EnvelopeState::Idle => EnvelopeState::Idle,
            EnvelopeState::Attack => if stage_done {
                EnvelopeState::Decay
            } else {
                EnvelopeState::Attack
            },
            EnvelopeState::Decay => if stage_done {
                EnvelopeState::Sustain
            } else {
                EnvelopeState::Decay
            },
            EnvelopeState::Sustain => EnvelopeState::Sustain,
            EnvelopeState::Release => if stage_done {
                EnvelopeState::Idle
            } else {
                EnvelopeState::Release
            },
        }
    }

    /// Whether the envelope is silent and finished.
    pub fn is_idle(&self) -> (r: bool)
        ensures
            r == (*self == EnvelopeState::Idle),
    {
        match self {
            EnvelopeState::Idle => true,
            _ => false,
        }
    }
}

/// The stage after one sample, as a mathematical function.
pub open spec fn envelope_step(s: EnvelopeState, done: bool) -> EnvelopeState {
    match s {
        EnvelopeState::Idle => EnvelopeState::Idle,
        EnvelopeState::Attack => if done {
            EnvelopeState::Decay
        } else {
            EnvelopeState::Attack
        },
        EnvelopeState::Decay => if done {
            EnvelopeState::Sustain
        } else {
            EnvelopeState::Decay
        },
        EnvelopeState::Sustain => EnvelopeState::Sustain,
        EnvelopeState::Release => if done {
            EnvelopeState::Idle
        } else {
            EnvelopeState::Release
        },
    }
}

/// A held note goes from attack through decay into sustain and stays there until released; a
/// released note ends idle and stays idle; no stage but release leads to idle.
pub proof fn lemma_envelope_lifecycle(d1: bool, d2: bool)
    ensures
        envelope_step(envelope_step(EnvelopeState::Attack, true), true) == EnvelopeState::Sustain,
        envelope_step(EnvelopeState::Sustain, d1) == EnvelopeState::Sustain,
        envelope_step(EnvelopeState::Release, true) == EnvelopeState::Idle,
        envelope_step(EnvelopeState::Idle, d1) == EnvelopeState::Idle,
        forall|s: EnvelopeState|
            envelope_step(s, d2) == EnvelopeState::Idle ==> s == EnvelopeState::Idle || s
                == EnvelopeState::Release,
{
}

/// Whether a track is heard: with any track soloed, only soloed tracks that are not muted;
/// otherwise every track that is not muted.
pub fn track_audible(any_solo: bool, solo: bool, mute: bool) -> (r: bool)
    ensures
        r == if any_solo {
            solo && !mute
        } else {
            !mute
        },
{
    if any_solo {
        solo && !mute
    } else {
        !mute
    }
}

/// The slot of a ring-buffer delay line that is `delay` samples behind the write position.
pub fn delay_read_index(write_pos: usize, size: usize, delay: usize) -> (r: usize)
    requires
        0 < size,
        write_pos < size,
        0 < delay <= write_pos + size,
        write_pos + size <= usize::MAX,
    ensures
        r == (write_pos + size - delay) % (size as int),
        r < size,
{
    (write_pos + size - delay) % size
}

} // verus!
