//! The step sequencer: tracks of notes on a tick grid, editing by pitch and tick, and the
//! playback step that decides which notes start and stop.
use vstd::prelude::*;
use crate::seq_lemmas::{lemma_filter_take_step, lemma_map_push, lemma_filter_count};

verus! {

/// A note on the sequencer grid. Ticks are sixteenth notes.
#[derive(Debug, Clone, Copy, PartialEq, Eq, Structural)]
pub struct Note {
    pub pitch: u8,
    pub velocity: u8,
    pub start_tick: u32,
    pub duration_ticks: u32,
}

/// A named track of notes; the hue colours the track on screen.
#[derive(Debug, Clone)]
pub struct Track {
    pub name: String,
    pub notes: Vec<Note>,
    pub color_hue: u16,
}

/// The first tick after the note.
pub open spec fn note_end(n: Note) -> int {
    n.start_tick + n.duration_ticks
}

/// Whether the note of this pitch sounds at this tick (from its start tick up to, but not
/// including, its end).
pub open spec fn note_sounds_at(n: Note, pitch: u8, tick: u32) -> bool {
    n.pitch == pitch && n.start_tick <= tick && tick < note_end(n)
}

/// The notes left once every note of `pitch` sounding at `tick` is taken out, in their order.
pub open spec fn notes_without(notes: Seq<Note>, pitch: u8, tick: u32) -> Seq<Note> {
    notes.filter(|n: Note| !note_sounds_at(n, pitch, tick))
}

/// Whether some note of `pitch` sounds at `tick`.
pub open spec fn has_note_at(notes: Seq<Note>, pitch: u8, tick: u32) -> bool {
    exists|k: int| 0 <= k < notes.len() && note_sounds_at(#[trigger] notes[k], pitch, tick)
}

/// `k` is the first index of a note of `pitch` sounding at `tick`.
pub open spec fn first_note_at(notes: Seq<Note>, pitch: u8, tick: u32, k: int) -> bool {
    &&& 0 <= k < notes.len()
    &&& note_sounds_at(notes[k], pitch, tick)
    &&& forall|j: int| 0 <= j < k ==> !note_sounds_at(#[trigger] notes[j], pitch, tick)
}

/// Once the notes of a pitch sounding at a tick are taken out, no note of that pitch sounds
/// there: after `remove_note_at`, `get_note_at` finds nothing at the same pitch and tick.
pub proof fn lemma_removed_note_absent(notes: Seq<Note>, pitch: u8, tick: u32)
    ensures
        !has_note_at(notes_without(notes, pitch, tick), pitch, tick),
{
    let p = |n: Note| !note_sounds_at(n, pitch, tick);
    let kept = notes_without(notes, pitch, tick);
    assert forall|k: int| 0 <= k < kept.len() implies !note_sounds_at(#[trigger] kept[k], pitch, tick) by {
        notes.lemma_filter_pred(p, k);
    }
}

/// A placed note of positive length is what the sequencer then finds: it is the only note of
/// its pitch sounding at its start (it replaced the others there), and a note of its pitch
/// sounds at every tick it lasts.
pub proof fn lemma_added_note_found(notes: Seq<Note>, note: Note)
    requires
        note.duration_ticks > 0,
    ensures
        ({
            let after = notes_without(notes, note.pitch, note.start_tick).push(note);
            &&& first_note_at(after, note.pitch, note.start_tick, after.len() - 1)
            &&& after[after.len() - 1] == note
            &&& forall|t: u32| note.start_tick <= t < note_end(note) ==> #[trigger] has_note_at(after, note.pitch, t)
        }),
{
    let kept = notes_without(notes, note.pitch, note.start_tick);
    let after = kept.push(note);
    lemma_removed_note_absent(notes, note.pitch, note.start_tick);
    assert forall|j: int| 0 <= j < after.len() - 1 implies !note_sounds_at(#[trigger] after[j], note.pitch, note.start_tick) by {
        assert(after[j] == kept[j]);
    }
    assert forall|t: u32| note.start_tick <= t < note_end(note) implies #[trigger] has_note_at(after, note.pitch, t) by {
        assert(note_sounds_at(after[after.len() - 1], note.pitch, t));
    }
}

/// Taking out the notes of one pitch leaves every other pitch alone: whether a note of another
/// pitch sounds at any tick is unchanged.
pub proof fn lemma_remove_keeps_other_pitches(notes: Seq<Note>, pitch: u8, tick: u32, other: u8, at: u32)
    requires
        other != pitch,
    ensures
        has_note_at(notes_without(notes, pitch, tick), other, at) == has_note_at(notes, other, at),
{
    let p = |n: Note| !note_sounds_at(n, pitch, tick);
    let kept = notes_without(notes, pitch, tick);
    if has_note_at(kept, other, at) {
        let k = choose|k: int| 0 <= k < kept.len() && note_sounds_at(#[trigger] kept[k], other, at);
        assert(kept.contains(kept[k]));
        notes.lemma_filter_contains_rev(p, kept[k]);
        let j = choose|j: int| 0 <= j < notes.len() && notes[j] == kept[k];
        assert(note_sounds_at(notes[j], other, at));
    }
    if has_note_at(notes, other, at) {
        let k = choose|k: int| 0 <= k < notes.len() && note_sounds_at(#[trigger] notes[k], other, at);
        notes.lemma_filter_contains(p, k);
        let j = choose|j: int| 0 <= j < kept.len() && kept[j] == notes[k];
        assert(note_sounds_at(kept[j], other, at));
    }
}

/// When a note of a pitch sounds at a tick, there is a first one.
pub proof fn lemma_first_note_exists(notes: Seq<Note>, pitch: u8, tick: u32)
    requires
        has_note_at(notes, pitch, tick),
    ensures
        exists|k: int| first_note_at(notes, pitch, tick, k),
    decreases notes.len(),
{
    let init = notes.drop_last();
    if has_note_at(init, pitch, tick) {
        lemma_first_note_exists(init, pitch, tick);
        let k = choose|k: int| first_note_at(init, pitch, tick, k);
        assert forall|j: int| 0 <= j < k implies !note_sounds_at(#[trigger] notes[j], pitch, tick) by {
            assert(notes[j] == init[j]);
        }
        assert(notes[k] == init[k]);
        assert(first_note_at(notes, pitch, tick, k));
    } else {
        let w = choose|k: int| 0 <= k < notes.len() && note_sounds_at(#[trigger] notes[k], pitch, tick);
        if w < notes.len() - 1 {
            assert(init[w] == notes[w]);
        }
        let last = notes.len() - 1;
        assert forall|j: int| 0 <= j < last implies !note_sounds_at(#[trigger] notes[j], pitch, tick) by {
            assert(notes[j] == init[j]);
        }
        assert(first_note_at(notes, pitch, tick, last));
    }
}

/// Taking out the notes of a pitch at a tick removes exactly the notes of that pitch whose
/// span `start_tick <= tick < start_tick + duration_ticks` holds the tick: every other note
/// stays, as many times as it was there.
pub proof fn lemma_removal_keeps_silent_notes(notes: Seq<Note>, pitch: u8, tick: u32, x: Note)
    ensures
        notes_without(notes, pitch, tick).to_multiset().count(x) == if x.pitch == pitch && x.start_tick <= tick
            && tick < x.start_tick + x.duration_ticks {
            0
        } else {
            notes.to_multiset().count(x)
        },
{
    lemma_filter_count(notes, |n: Note| !note_sounds_at(n, pitch, tick), x);
}

/// Taking out notes keeps the order of the rest: removing from two lists one after the other
/// gives what removing from each gives, one after the other.
pub proof fn lemma_removal_keeps_order(a: Seq<Note>, b: Seq<Note>, pitch: u8, tick: u32)
    ensures
        notes_without(a + b, pitch, tick) == notes_without(a, pitch, tick) + notes_without(b, pitch, tick),
{
    Seq::filter_distributes_over_add(a, b, |n: Note| !note_sounds_at(n, pitch, tick));
}

/// Placing a note never removes a note of another pitch, nor one of its pitch that has ended
/// by the new note's start or starts after it.
pub proof fn lemma_placing_keeps_other_notes(notes: Seq<Note>, note: Note, k: int)
    requires
        0 <= k < notes.len(),
        notes[k].pitch != note.pitch || notes[k].start_tick > note.start_tick || notes[k].start_tick
            + notes[k].duration_ticks <= note.start_tick,
    ensures
        notes_without(notes, note.pitch, note.start_tick).push(note).contains(notes[k]),
{
    broadcast use vstd::seq_lib::group_to_multiset_ensures;

    let kept = notes_without(notes, note.pitch, note.start_tick);
    lemma_removal_keeps_silent_notes(notes, note.pitch, note.start_tick, notes[k]);
    assert(notes.contains(notes[k]));
    assert(kept.to_multiset().count(notes[k]) > 0);
    assert(kept.contains(notes[k]));
    let j = choose|j: int| 0 <= j < kept.len() && kept[j] == notes[k];
    assert(kept.push(note)[j] == notes[k]);
}

impl Track {
    /// An empty track.
    pub fn new(name: &str, hue: u16) -> (t: Track)
        ensures
            t.name@ == name@,
            t.notes@ == Seq::<Note>::empty(),
            t.color_hue == hue,
    {
        Track { name: name.to_owned(), notes: Vec::new(), color_hue: hue }
    }
}

/// Finds the index of the first note of `pitch` sounding at `tick`.
pub fn find_note_index(notes: &Vec<Note>, pitch: u8, tick: u32) -> (r: Option<usize>)
    ensures
        match r {
            Some(k) => first_note_at(notes@, pitch, tick, k as int),
            None => !has_note_at(notes@, pitch, tick),
        },
{
    let mut j: usize = 0;
    while j < notes.len()
        invariant
            j <= notes@.len(),
            forall|i: int| 0 <= i < j ==> !note_sounds_at(#[trigger] notes@[i], pitch, tick),
        decreases notes@.len() - j,
    {
        let n = notes[j];
        if n.pitch == pitch && n.start_tick <= tick && (tick as u64) < (n.start_tick as u64)
            + (n.duration_ticks as u64) {
            return Some(j);
        }
        j += 1;
    }
    None
}

/// The notes without those of `pitch` sounding at `tick`, and whether any was taken out.
pub fn without_note(notes: &Vec<Note>, pitch: u8, tick: u32) -> (r: (Vec<Note>, bool))
    ensures
        r.0@ == notes_without(notes@, pitch, tick),
        r.1 == has_note_at(notes@, pitch, tick),
{
    let mut kept: Vec<Note> = Vec::new();
    let mut removed = false;
    let ghost p = |n: Note| !note_sounds_at(n, pitch, tick);
    let mut j: usize = 0;
    while j < notes.len()
        invariant
            j <= notes@.len(),
            p == (|n: Note| !note_sounds_at(n, pitch, tick)),
            kept@ == notes@.take(j as int).filter(p),
            removed == exists|k: int| 0 <= k < j && note_sounds_at(#[trigger] notes@[k], pitch, tick),
        decreases notes@.len() - j,
    {
        let n = notes[j];
        proof {
            lemma_filter_take_step(notes@, p, j as int);
        }
        if n.pitch == pitch && n.start_tick <= tick && (tick as u64) < (n.start_tick as u64)
            + (n.duration_ticks as u64) {
            removed = true;
        } else {
            kept.push(n);
        }
        j += 1;
    }
    assert(notes@.take(notes@.len() as int) =~= notes@);
    (kept, removed)
}

/// What the synthesizer is told at a playback step.
#[derive(Debug, Clone, Copy, PartialEq, Eq, Structural)]
pub enum SynthCommand {
    /// Release every sounding voice.
    AllNotesOff,
    /// Release the voices playing this pitch.
    NoteOff { track: usize, pitch: u8 },
    /// Start a voice; the velocity is in the MIDI range 0..127.
    NoteOn { track: usize, pitch: u8, velocity: u8 },
}

/// The transport and the tracks.
#[derive(Debug, Clone)]
pub struct Sequencer {
    pub tracks: Vec<Track>,
    /// Tempo in beats per minute.
    pub bpm: u32,
    pub current_tick: u32,
    pub max_ticks: u32,
    pub loop_start: u32,
    pub loop_end: u32,
    pub is_playing: bool,
    pub is_recording: bool,
    /// Ticks per beat (4: a tick is a sixteenth note).
    pub ticks_per_beat: u32,
    /// Grid snap in ticks.
    pub snap_division: u32,
}

/// The tick that playback moves to from `s`: the next one, or the loop start once the loop
/// end is reached.
pub open spec fn next_tick(s: Sequencer) -> u32 {
    if s.current_tick + 1 >= s.loop_end {
        s.loop_start
    } else {
        (s.current_tick + 1) as u32
    }
}

/// Whether a note is released when playback arrives at `cur` from `prev`: it ends there, or
/// playback wrapped to the loop start and the note had not ended before the step.
pub open spec fn releases_at(n: Note, cur: u32, prev: u32, loop_start: u32) -> bool {
    note_end(n) == cur || (cur == loop_start && note_end(n) >= prev + 1)
}

/// Releases that a track's notes call for at a step, in note order.
pub open spec fn track_releases(track: usize, notes: Seq<Note>, cur: u32, prev: u32, loop_start: u32) -> Seq<SynthCommand> {
    notes.filter(|n: Note| releases_at(n, cur, prev, loop_start)).map_values(
        |n: Note| SynthCommand::NoteOff { track, pitch: n.pitch },
    )
}

/// Starts that a track's notes call for at tick `cur`, in note order.
pub open spec fn track_starts(track: usize, notes: Seq<Note>, cur: u32) -> Seq<SynthCommand> {
    notes.filter(|n: Note| n.start_tick == cur).map_values(
        |n: Note| SynthCommand::NoteOn { track, pitch: n.pitch, velocity: n.velocity },
    )
}

/// Releases of the first `k` tracks, track by track.
pub open spec fn releases_upto(tracks: Seq<Track>, k: int, cur: u32, prev: u32, loop_start: u32) -> Seq<SynthCommand>
    decreases k,
{
    if k <= 0 {
        Seq::empty()
    } else {
        releases_upto(tracks, k - 1, cur, prev, loop_start) + track_releases(
            (k - 1) as usize,
            tracks[k - 1].notes@,
            cur,
            prev,
            loop_start,
        )
    }
}

/// Starts of the first `k` tracks, track by track.
pub open spec fn starts_upto(tracks: Seq<Track>, k: int, cur: u32) -> Seq<SynthCommand>
    decreases k,
{
    if k <= 0 {
        Seq::empty()
    } else {
        starts_upto(tracks, k - 1, cur) + track_starts((k - 1) as usize, tracks[k - 1].notes@, cur)
    }
}

/// Everything the synthesizer is told at one playback step from `s`: all notes off when the
/// loop wraps, then the releases, then the starts.
pub open spec fn step_commands(s: Sequencer) -> Seq<SynthCommand> {
    let cur = next_tick(s);
    let wrap = if s.current_tick + 1 >= s.loop_end {
        seq![SynthCommand::AllNotesOff]
    } else {
        Seq::empty()
    };
    wrap + releases_upto(s.tracks@, s.tracks@.len() as int, cur, s.current_tick, s.loop_start)
        + starts_upto(s.tracks@, s.tracks@.len() as int, cur)
}

/// The transport settings of two sequencer states agree.
pub open spec fn same_transport(a: Sequencer, b: Sequencer) -> bool {
    &&& a.bpm == b.bpm
    &&& a.current_tick == b.current_tick
    &&& a.max_ticks == b.max_ticks
    &&& a.loop_start == b.loop_start
    &&& a.loop_end == b.loop_end
    &&& a.is_playing == b.is_playing
    &&& a.is_recording == b.is_recording
    &&& a.ticks_per_beat == b.ticks_per_beat
    &&& a.snap_division == b.snap_division
}

/// `b` is `a` with the notes of track `i` replaced by `notes`.
pub open spec fn with_track_notes(a: Sequencer, b: Sequencer, i: int, notes: Seq<Note>) -> bool {
    &&& same_transport(a, b)
    &&& b.tracks@.len() == a.tracks@.len()
    &&& 0 <= i < a.tracks@.len()
    &&& b.tracks@[i].name == a.tracks@[i].name
    &&& b.tracks@[i].color_hue == a.tracks@[i].color_hue
    &&& b.tracks@[i].notes@ == notes
    &&& forall|j: int| 0 <= j < a.tracks@.len() && j != i ==> b.tracks@[j] == a.tracks@[j]
}

/// Most playback steps taken at once when playback has fallen behind.
pub const MAX_CATCH_UP_TICKS: u32 = 4;

/// How many playback steps to take when `elapsed_micros` microseconds have passed since the
/// last one and a step lasts `tick_micros`: the whole steps that passed, counted in 32 bits,
/// and at most `MAX_CATCH_UP_TICKS`.
pub fn ticks_to_advance(elapsed_micros: u128, tick_micros: u128) -> (n: u32)
    requires
        tick_micros > 0,
    ensures
        n == if ((elapsed_micros / tick_micros) as u32) < MAX_CATCH_UP_TICKS {
            (elapsed_micros / tick_micros) as u32
        } else {
            MAX_CATCH_UP_TICKS
        },
{
    let whole = (elapsed_micros / tick_micros) as u32;
    if whole < MAX_CATCH_UP_TICKS {
        whole
    } else {
        MAX_CATCH_UP_TICKS
    }
}

impl Sequencer {
    /// Four empty tracks (lead, bass, pad, drums) at 120 BPM, four bars of sixteenths, looping
    /// over the whole song, stopped.
    pub fn new() -> (s: Sequencer)
        ensures
            s.tracks@.len() == 4,
            s.tracks@[0].name@ == "Track 1: Lead"@,
            s.tracks@[1].name@ == "Track 2: Bass"@,
            s.tracks@[2].name@ == "Track 3: Pad"@,
            s.tracks@[3].name@ == "Track 4: Drums"@,
            s.tracks@[0].color_hue == 280 && s.tracks@[1].color_hue == 200,
            s.tracks@[2].color_hue == 120 && s.tracks@[3].color_hue == 350,
            forall|i: int| 0 <= i < 4 ==> (#[trigger] s.tracks@[i]).notes@.len() == 0,
            s.bpm == 120,
            s.current_tick == 0,
            s.max_ticks == 64,
            s.loop_start == 0,
            s.loop_end == 64,
            !s.is_playing,
            !s.is_recording,
            s.ticks_per_beat == 4,
            s.snap_division == 1,
    {
        let mut tracks: Vec<Track> = Vec::new();
        tracks.push(Track::new("Track 1: Lead", 280));
        tracks.push(Track::new("Track 2: Bass", 200));
        tracks.push(Track::new("Track 3: Pad", 120));
        tracks.push(Track::new("Track 4: Drums", 350));
        Sequencer {
            tracks,
            bpm: 120,
            current_tick: 0,
            max_ticks: 64,
            loop_start: 0,
            loop_end: 64,
            is_playing: false,
            is_recording: false,
            ticks_per_beat: 4,
            snap_division: 1,
        }
    }

    /// Takes out every note of `pitch` on the track that sounds at `tick`; tells whether one
    /// was there. Out-of-range tracks are left alone.
    pub fn remove_note_at(&mut self, track_idx: usize, pitch: u8, tick: u32) -> (removed: bool)
        ensures
            track_idx >= old(self).tracks@.len() ==> !removed && *final(self) == *old(self),
            track_idx < old(self).tracks@.len() ==> {
                let notes = old(self).tracks@[track_idx as int].notes@;
                &&& with_track_notes(*old(self), *final(self), track_idx as int, notes_without(notes, pitch, tick))
                &&& removed == has_note_at(notes, pitch, tick)
            },
    {
        if track_idx >= self.tracks.len() {
            return false;
        }
        let (kept, removed) = without_note(&self.tracks[track_idx].notes, pitch, tick);
        self.tracks[track_idx].notes = kept;
        removed
    }

    /// Places a note on the track, replacing the notes of the same pitch that sound at its
    /// start tick; the new note goes last. Out-of-range tracks are left alone.
    pub fn add_note(&mut self, track_idx: usize, pitch: u8, start_tick: u32, duration_ticks: u32, velocity: u8)
        ensures
            track_idx >= old(self).tracks@.len() ==> *final(self) == *old(self),
            track_idx < old(self).tracks@.len() ==> with_track_notes(
                *old(self),
                *final(self),
                track_idx as int,
                notes_without(old(self).tracks@[track_idx as int].notes@, pitch, start_tick).push(
                    Note { pitch, velocity, start_tick, duration_ticks },
                ),
            ),
    {
        if track_idx >= self.tracks.len() {
            return;
        }
        self.remove_note_at(track_idx, pitch, start_tick);
        let note = Note { pitch, velocity, start_tick, duration_ticks };
        self.tracks[track_idx].notes.push(note);
    }

    /// The first note of `pitch` on the track that sounds at `tick`.
    pub fn get_note_at(&self, track_idx: usize, pitch: u8, tick: u32) -> (r: Option<&Note>)
        ensures
            track_idx >= self.tracks@.len() ==> r is None,
            track_idx < self.tracks@.len() ==> {
                let notes = self.tracks@[track_idx as int].notes@;
                match r {
                    Some(n) => exists|k: int| first_note_at(notes, pitch, tick, k) && *n == notes[k],
                    None => !has_note_at(notes, pitch, tick),
                }
            },
    {
        if track_idx >= self.tracks.len() {
            return None;
        }
        match find_note_index(&self.tracks[track_idx].notes, pitch, tick) {
            Some(k) => Some(&self.tracks[track_idx].notes[k]),
            None => None,
        }
    }

    /// Moves playback one tick on, wrapping to the loop start at the loop end, and returns what
    /// the synthesizer is told: all notes off on a wrap, then the releases, then the starts.
    pub fn advance_tick(&mut self) -> (cmds: Vec<SynthCommand>)
        requires
            old(self).current_tick < u32::MAX,
        ensures
            final(self).current_tick == next_tick(*old(self)),
            final(self).tracks == old(self).tracks,
            final(self).bpm == old(self).bpm,
            final(self).max_ticks == old(self).max_ticks,
            final(self).loop_start == old(self).loop_start,
            final(self).loop_end == old(self).loop_end,
            final(self).is_playing == old(self).is_playing,
            final(self).is_recording == old(self).is_recording,
            final(self).ticks_per_beat == old(self).ticks_per_beat,
            final(self).snap_division == old(self).snap_division,
            cmds@ == step_commands(*old(self)),
            old(self).loop_start <= old(self).current_tick < old(self).loop_end ==> old(self).loop_start
                <= final(self).current_tick < final(self).loop_end,
    {
        let prev = self.current_tick;
        let mut cmds: Vec<SynthCommand> = Vec::new();
        self.current_tick = prev + 1;
        if self.current_tick >= self.loop_end {
            self.current_tick = self.loop_start;
            cmds.push(SynthCommand::AllNotesOff);
        }
        let cur = self.current_tick;
        let loop_start = self.loop_start;
        let ghost base = cmds@;
        let ghost tracks = self.tracks@;
        let n_tracks = self.tracks.len();
        let mut i: usize = 0;
        while i < n_tracks
            invariant
                n_tracks == tracks.len(),
                tracks == self.tracks@,
                i <= n_tracks,
                cmds@ == base + releases_upto(tracks, i as int, cur, prev, loop_start),
            decreases n_tracks - i,
        {
            let notes = &self.tracks[i].notes;
            let ghost p = |n: Note| releases_at(n, cur, prev, loop_start);
            let ghost f = |n: Note| SynthCommand::NoteOff { track: i, pitch: n.pitch };
            let ghost before = cmds@;
            let mut j: usize = 0;
            while j < notes.len()
                invariant
                    j <= notes@.len(),
                    notes@ == tracks[i as int].notes@,
                    p == (|n: Note| releases_at(n, cur, prev, loop_start)),
                    f == (|n: Note| SynthCommand::NoteOff { track: i, pitch: n.pitch }),
                    cmds@ == before + notes@.take(j as int).filter(p).map_values(f),
                decreases notes@.len() - j,
            {
                let n = notes[j];
                proof {
                    lemma_filter_take_step(notes@, p, j as int);
                    lemma_map_push(notes@.take(j as int).filter(p), f, n);
                }
                let end = n.start_tick as u64 + n.duration_ticks as u64;
                if end == cur as u64 || (cur == loop_start && end >= prev as u64 + 1) {
                    cmds.push(SynthCommand::NoteOff { track: i, pitch: n.pitch });
                }
                j += 1;
            }
            assert(notes@.take(notes@.len() as int) =~= notes@);
            i += 1;
        }
        let ghost mid = cmds@;
        let mut i: usize = 0;
        while i < n_tracks
            invariant
                n_tracks == tracks.len(),
                tracks == self.tracks@,
                i <= n_tracks,
                cmds@ == mid + starts_upto(tracks, i as int, cur),
            decreases n_tracks - i,
        {
            let notes = &self.tracks[i].notes;
            let ghost p = |n: Note| n.start_tick == cur;
            let ghost f = |n: Note| SynthCommand::NoteOn { track: i, pitch: n.pitch, velocity: n.velocity };
            let ghost before = cmds@;
            let mut j: usize = 0;
            while j < notes.len()
                invariant
                    j <= notes@.len(),
                    notes@ == tracks[i as int].notes@,
                    p == (|n: Note| n.start_tick == cur),
                    f == (|n: Note| SynthCommand::NoteOn { track: i, pitch: n.pitch, velocity: n.velocity }),
                    cmds@ == before + notes@.take(j as int).filter(p).map_values(f),
                decreases notes@.len() - j,
            {
                let n = notes[j];
                proof {
                    lemma_filter_take_step(notes@, p, j as int);
                    lemma_map_push(notes@.take(j as int).filter(p), f, n);
                }
                if n.start_tick == cur {
                    cmds.push(SynthCommand::NoteOn { track: i, pitch: n.pitch, velocity: n.velocity });
                }
                j += 1;
            }
            assert(notes@.take(notes@.len() as int) =~= notes@);
            i += 1;
        }
        cmds
    }
}

} // verus!
