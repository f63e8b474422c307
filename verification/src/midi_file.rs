//! Standard MIDI File export of the sequencer: the event lists are built and ordered here,
//! the byte encoding is done by the `midly` crate.
use vstd::prelude::*;
use vstd::utf8::encode_utf8;
use crate::sequencer::{Note, Sequencer, note_end};
use crate::seq_lemmas::lemma_filter_count;
use midly::{MetaMessage as M, MidiMessage as Mm, TrackEventKind as K};

verus! {

broadcast use vstd::seq_lib::group_filter_ensures;

/// MIDI ticks in one sequencer tick: the file has 192 ticks per quarter note and a sequencer
/// tick is a sixteenth note.
pub const MIDI_TICKS_PER_STEP: u32 = 48;

/// Ticks per quarter note in the exported file.
pub const FILE_TICKS_PER_BEAT: u16 = 192;

/// The start or end of a note, at an absolute MIDI tick.
#[derive(Debug, Clone, Copy, PartialEq, Eq, Structural)]
pub struct NoteEvent {
    pub tick: u32,
    pub pitch: u8,
    pub velocity: u8,
    pub is_on: bool,
}

/// The layout of the tracks in a MIDI file.
#[derive(Debug, Clone, Copy, PartialEq, Eq, Structural)]
pub enum SmfFormat {
    /// One track.
    SingleTrack,
    /// Tracks played at the same time.
    Parallel,
    /// Independent tracks played one after another.
    Sequential,
}

/// The kind of a track event in a MIDI file.
#[derive(Debug, Clone, PartialEq, Eq)]
pub enum SmfEventKind {
    TrackName(Vec<u8>),
    /// Microseconds per quarter note.
    Tempo(u32),
    NoteOn { channel: u8, key: u8, vel: u8 },
    NoteOff { channel: u8, key: u8, vel: u8 },
    EndOfTrack,
}

/// A track event: the MIDI ticks since the previous event of the track, and the event.
#[derive(Debug, Clone, PartialEq, Eq)]
pub struct SmfEvent {
    pub delta: u32,
    pub kind: SmfEventKind,
}

/// The mathematical value of an event kind.
pub enum SmfEventKindView {
    TrackName(Seq<u8>),
    Tempo(u32),
    NoteOn { channel: u8, key: u8, vel: u8 },
    NoteOff { channel: u8, key: u8, vel: u8 },
    EndOfTrack,
}

/// The mathematical value of a track event.
pub struct SmfEventView {
    pub delta: u32,
    pub kind: SmfEventKindView,
}

impl View for SmfEvent {
    type V = SmfEventView;

    open spec fn view(&self) -> SmfEventView {
        SmfEventView {
            delta: self.delta,
            kind: match self.kind {
                SmfEventKind::TrackName(b) => SmfEventKindView::TrackName(b@),
                SmfEventKind::Tempo(t) => SmfEventKindView::Tempo(t),
                SmfEventKind::NoteOn { channel, key, vel } => SmfEventKindView::NoteOn { channel, key, vel },
                SmfEventKind::NoteOff { channel, key, vel } => SmfEventKindView::NoteOff { channel, key, vel },
                SmfEventKind::EndOfTrack => SmfEventKindView::EndOfTrack,
            },
        }
    }
}

/// The values of a track's events.
pub open spec fn events_view(v: Seq<SmfEvent>) -> Seq<SmfEventView> {
    v.map_values(|e: SmfEvent| e@)
}

/// The values of the events of every track.
pub open spec fn tracks_view(v: Seq<Vec<SmfEvent>>) -> Seq<Seq<SmfEventView>> {
    v.map_values(|t: Vec<SmfEvent>| events_view(t@))
}

/// What `midly` makes of a Standard MIDI File with a header (format and ticks per quarter
/// note) and the tracks' events, written into memory: the file's bytes, or `None` when it
/// refuses the file.
pub uninterp spec fn smf_write(format: SmfFormat, ticks_per_beat: u16, tracks: Seq<Seq<SmfEventView>>) -> Option<Seq<u8>>;

/// The text of a track-name event, if the event is one.
pub open spec fn name_bytes(e: SmfEventView) -> Option<Seq<u8>> {
    match e.kind {
        SmfEventKindView::TrackName(b) => Some(b),
        _ => None,
    }
}

/// A track that `midly` can write: it holds at most one track name, shorter than 2^28 bytes,
/// and ten bytes per event (four of delta time, at most six of message) plus the name's text
/// fit in the 32-bit length of a track chunk.
pub open spec fn track_fits(t: Seq<SmfEventView>) -> bool {
    &&& 10 * t.len() <= u32::MAX
    &&& forall|k: int|
        0 <= k < t.len() && #[trigger] name_bytes(t[k]) is Some ==> {
            &&& name_bytes(t[k])->0.len() < 0x1000_0000
            &&& 10 * t.len() + name_bytes(t[k])->0.len() <= u32::MAX
            &&& forall|j: int| 0 <= j < t.len() && j != k ==> name_bytes(#[trigger] t[j]) is None
        }
}

/// A file that `midly` can write: at most 65535 tracks, each one that fits.
pub open spec fn smf_fits(tracks: Seq<Seq<SmfEventView>>) -> bool {
    &&& tracks.len() <= 65535
    &&& forall|i: int| 0 <= i < tracks.len() ==> track_fits(#[trigger] tracks[i])
}

/// `midly::TrackEvent`, an event as `midly` encodes it.
#[verifier::external_type_specification]
#[verifier::external_body]
pub struct ExTrackEvent<'a>(midly::TrackEvent<'a>);

/// `midly` encoding of one event (`TrackEvent`), the integers narrowed by `midly`'s lossy
/// `From` conversions: the delta to 28 bits, the tempo to 24 bits, the channel to 4 bits, keys
/// and velocities to 7 bits. Its value is carried opaquely into `write_smf`.
#[verifier::external_body]
fn midly_event(e: &SmfEvent) -> midly::TrackEvent<'_> {
    let kind = match &e.kind {
        SmfEventKind::TrackName(b) => K::Meta(M::TrackName(b)),
        SmfEventKind::Tempo(t) => K::Meta(M::Tempo((*t).into())),
        SmfEventKind::NoteOn { channel, key, vel } => K::Midi { channel: (*channel).into(), message: Mm::NoteOn { key: (*key).into(), vel: (*vel).into() } },
        SmfEventKind::NoteOff { channel, key, vel } => K::Midi { channel: (*channel).into(), message: Mm::NoteOff { key: (*key).into(), vel: (*vel).into() } },
        SmfEventKind::EndOfTrack => K::Meta(M::EndOfTrack),
    };
    midly::TrackEvent { delta: e.delta.into(), kind }
}

/// `midly::Smf::write` into an empty `Vec<u8>`, for a file with the given format, ticks per
/// quarter note and tracks. Writing into memory depends on the arguments alone, so its outcome
/// is `smf_write` of them: the bytes, or the refusal. `midly` refuses only more than 65535
/// tracks, a track chunk longer than 2^32 - 1 bytes and a track name of 2^28 bytes or more;
/// an event takes at most four bytes of delta time and six of message besides a name's text,
/// so a file within `smf_fits` is written.
#[verifier::external_body]
fn write_smf(format: SmfFormat, ticks_per_beat: u16, tracks: &Vec<Vec<SmfEvent>>) -> (r: Result<Vec<u8>, &'static str>)
    ensures
        match r {
            Ok(b) => smf_write(format, ticks_per_beat, tracks_view(tracks@)) == Some(b@),
            Err(_) => smf_write(format, ticks_per_beat, tracks_view(tracks@)) is None,
        },
        smf_fits(tracks_view(tracks@)) ==> r is Ok,
{
    let format = match format {
        SmfFormat::SingleTrack => midly::Format::SingleTrack,
        SmfFormat::Parallel => midly::Format::Parallel,
        SmfFormat::Sequential => midly::Format::Sequential,
    };
    let mut smf = midly::Smf::new(midly::Header::new(format, midly::Timing::Metrical(ticks_per_beat.into())));
    smf.tracks = tracks.iter().map(|t| t.iter().map(midly_event).collect()).collect();
    let mut buf = Vec::new();
    smf.write(&mut buf).map(|_| buf)
}

/// The start event of a note, at its MIDI tick.
pub open spec fn note_on_event(n: Note) -> NoteEvent {
    NoteEvent {
        tick: (n.start_tick * MIDI_TICKS_PER_STEP) as u32,
        pitch: n.pitch,
        velocity: n.velocity,
        is_on: true,
    }
}

/// The end event of a note, at its MIDI tick, with velocity 0.
pub open spec fn note_off_event(n: Note) -> NoteEvent {
    NoteEvent { tick: (note_end(n) * MIDI_TICKS_PER_STEP) as u32, pitch: n.pitch, velocity: 0, is_on: false }
}

/// The start and end events of the notes, note by note.
pub open spec fn note_events(notes: Seq<Note>) -> Seq<NoteEvent>
    decreases notes.len(),
{
    if notes.len() == 0 {
        Seq::empty()
    } else {
        note_events(notes.drop_last()) + seq![note_on_event(notes.last()), note_off_event(notes.last())]
    }
}

/// Every note ends at a MIDI tick that fits in 32 bits.
pub open spec fn exportable(notes: Seq<Note>) -> bool {
    forall|i: int| 0 <= i < notes.len() ==> note_end(#[trigger] notes[i]) * MIDI_TICKS_PER_STEP <= u32::MAX
}

/// The events at MIDI tick `t`, in their order.
pub open spec fn at_tick(s: Seq<NoteEvent>, t: u32) -> Seq<NoteEvent> {
    s.filter(|e: NoteEvent| e.tick == t)
}

/// The ticks never decrease.
pub open spec fn tick_sorted(s: Seq<NoteEvent>) -> bool {
    forall|i: int, j: int| 0 <= i <= j < s.len() ==> s[i].tick <= s[j].tick
}

/// `out` is `inp` stably sorted by tick: ordered by tick, and the events of each tick in
/// the order they had.
pub open spec fn stable_tick_order(out: Seq<NoteEvent>, inp: Seq<NoteEvent>) -> bool {
    &&& tick_sorted(out)
    &&& forall|t: u32| #[trigger] at_tick(out, t) == at_tick(inp, t)
}

proof fn lemma_at_tick_add(a: Seq<NoteEvent>, b: Seq<NoteEvent>, t: u32)
    ensures
        at_tick(a + b, t) == at_tick(a, t) + at_tick(b, t),
{
    Seq::filter_distributes_over_add(a, b, |e: NoteEvent| e.tick == t);
}

proof fn lemma_at_tick_none(s: Seq<NoteEvent>, t: u32)
    requires
        forall|i: int| 0 <= i < s.len() ==> s[i].tick != t,
    ensures
        at_tick(s, t) == Seq::<NoteEvent>::empty(),
    decreases s.len(),
{
    reveal(Seq::filter);
    if s.len() > 0 {
        lemma_at_tick_none(s.drop_last(), t);
    }
}

proof fn lemma_at_tick_single(e: NoteEvent, t: u32)
    ensures
        at_tick(seq![e], t) == if e.tick == t { seq![e] } else { Seq::<NoteEvent>::empty() },
{
    reveal(Seq::filter);
    let p = |x: NoteEvent| x.tick == t;
    assert(seq![e].drop_last() =~= Seq::<NoteEvent>::empty());
    assert(Seq::<NoteEvent>::empty().filter(p) =~= Seq::<NoteEvent>::empty());
    assert(Seq::<NoteEvent>::empty().push(e) =~= seq![e]);
}

/// Sorts events stably by tick (insertion sort: each event goes after every event of a tick
/// not above its own).
pub fn sort_by_tick(events: &Vec<NoteEvent>) -> (out: Vec<NoteEvent>)
    ensures
        stable_tick_order(out@, events@),
        out@.len() == events@.len(),
{
    let mut out: Vec<NoteEvent> = Vec::new();
    let mut i: usize = 0;
    assert(events@.take(0) =~= out@);
    while i < events.len()
        invariant
            i <= events@.len(),
            out@.len() == i,
            stable_tick_order(out@, events@.take(i as int)),
        decreases events@.len() - i,
    {
        let e = events[i];
        let mut p: usize = 0;
        while p < out.len() && out[p].tick <= e.tick
            invariant
                p <= out@.len(),
                forall|k: int| 0 <= k < p ==> out@[k].tick <= e.tick,
            decreases out@.len() - p,
        {
            p += 1;
        }
        let ghost old_out = out@;
        let ghost lo = old_out.subrange(0, p as int);
        let ghost hi = old_out.subrange(p as int, old_out.len() as int);
        proof {
            assert(forall|k: int| 0 <= k < hi.len() ==> hi[k].tick > e.tick) by {
                if p < old_out.len() {
                    assert(old_out[p as int].tick > e.tick);
                }
            }
            assert(old_out =~= lo + hi);
        }
        out.insert(p, e);
        proof {
            assert(out@ =~= lo + seq![e] + hi);
            assert(events@.take(i + 1) =~= events@.take(i as int) + seq![e]);
            assert forall|t: u32| #[trigger] at_tick(out@, t) == at_tick(events@.take(i + 1), t) by {
                lemma_at_tick_add(lo + seq![e], hi, t);
                lemma_at_tick_add(lo, seq![e], t);
                lemma_at_tick_add(lo, hi, t);
                lemma_at_tick_add(events@.take(i as int), seq![e], t);
                lemma_at_tick_single(e, t);
                if t == e.tick {
                    lemma_at_tick_none(hi, t);
                    assert(at_tick(old_out, t) == at_tick(events@.take(i as int), t));
                } else {
                    assert(at_tick(old_out, t) == at_tick(events@.take(i as int), t));
                }
            }
            assert forall|a: int, b: int| 0 <= a <= b < out@.len() implies out@[a].tick <= out@[b].tick by {
                assert(tick_sorted(old_out));
                if a < p && b > p {
                    assert(out@[a] == old_out[a]);
                    assert(out@[b] == old_out[b - 1]);
                } else if a < p && b == p {
                } else if a == p && b > p {
                    assert(out@[b] == hi[b - p - 1]);
                } else if a > p {
                    assert(out@[a] == old_out[a - 1]);
                    assert(out@[b] == old_out[b - 1]);
                } else if b < p {
                    assert(out@[a] == old_out[a]);
                    assert(out@[b] == old_out[b]);
                }
            }
        }
        i += 1;
    }
    assert(events@.take(events@.len() as int) =~= events@);
    out
}

/// The MIDI tick of the event before position `k` (0 before the first event).
pub open spec fn prev_tick(s: Seq<NoteEvent>, k: int) -> int {
    if k == 0 {
        0
    } else {
        s[k - 1].tick as int
    }
}

/// The file event for the `k`-th sorted note event on `channel`: the ticks since the previous
/// event, then a note on with the note's velocity or a note off with velocity 0.
pub open spec fn delta_event(s: Seq<NoteEvent>, k: int, channel: u8) -> SmfEventView {
    SmfEventView {
        delta: (s[k].tick - prev_tick(s, k)) as u32,
        kind: if s[k].is_on {
            SmfEventKindView::NoteOn { channel, key: s[k].pitch, vel: s[k].velocity }
        } else {
            SmfEventKindView::NoteOff { channel, key: s[k].pitch, vel: 0 }
        },
    }
}

/// The file events of the sorted note events.
pub open spec fn delta_events(s: Seq<NoteEvent>, channel: u8) -> Seq<SmfEventView> {
    Seq::new(s.len(), |k: int| delta_event(s, k, channel))
}

/// A track of the file: its name, the tempo where given, the note events, the end of track.
pub open spec fn track_export(name: Seq<char>, tempo: Option<u32>, sorted: Seq<NoteEvent>, channel: u8) -> Seq<SmfEventView> {
    let head = seq![SmfEventView { delta: 0, kind: SmfEventKindView::TrackName(encode_utf8(name)) }];
    let tempo_events = match tempo {
        Some(t) => seq![SmfEventView { delta: 0, kind: SmfEventKindView::Tempo(t) }],
        None => Seq::empty(),
    };
    head + tempo_events + delta_events(sorted, channel) + seq![
        SmfEventView { delta: 0, kind: SmfEventKindView::EndOfTrack },
    ]
}

/// The tempo event of the file, on the first track: `tempo` microseconds per quarter note.
pub open spec fn track_tempo(tempo: u32, i: int) -> Option<u32> {
    if i == 0 {
        Some(tempo)
    } else {
        None
    }
}

/// `events` is the file track of the sequencer's track `i`, on MIDI channel `i`, with the
/// file's tempo `tempo` in microseconds per quarter note.
pub open spec fn exported_track(s: Sequencer, tempo: u32, i: int, events: Seq<SmfEventView>) -> bool {
    exists|sorted: Seq<NoteEvent>|
        #![trigger track_export(s.tracks@[i].name@, track_tempo(tempo, i), sorted, i as u8)]
        stable_tick_order(sorted, note_events(s.tracks@[i].notes@)) && sorted.len() == note_events(
            s.tracks@[i].notes@,
        ).len() && events == track_export(
            s.tracks@[i].name@,
            track_tempo(tempo, i),
            sorted,
            i as u8,
        )
}

/// `tracks` are the file tracks of all the sequencer's tracks, with the file's tempo `tempo`.
pub open spec fn exported_tracks(s: Sequencer, tempo: u32, tracks: Seq<Seq<SmfEventView>>) -> bool {
    &&& tracks.len() == s.tracks@.len()
    &&& forall|i: int| 0 <= i < tracks.len() ==> exported_track(s, tempo, i, #[trigger] tracks[i])
}

/// The sequencer can be written: every note ends at a MIDI tick that fits in 32 bits.
pub open spec fn can_export(s: Sequencer) -> bool {
    forall|i: int| 0 <= i < s.tracks@.len() ==> exportable(#[trigger] s.tracks@[i].notes@)
}

/// The song fits in a MIDI file: at most 65535 tracks, each with a name shorter than 2^28 bytes
/// in UTF-8, and its events (name, tempo, two per note, end) at ten bytes each plus the name
/// within a 32-bit track chunk.
pub open spec fn export_fits(s: Sequencer) -> bool {
    &&& s.tracks@.len() <= 65535
    &&& forall|i: int|
        0 <= i < s.tracks@.len() ==> {
            let name = encode_utf8((#[trigger] s.tracks@[i]).name@);
            &&& name.len() < 0x1000_0000
            &&& 10 * (2 * s.tracks@[i].notes@.len() + 3) + name.len() <= u32::MAX
        }
}

proof fn lemma_note_events_len(notes: Seq<Note>)
    ensures
        note_events(notes).len() == 2 * notes.len(),
    decreases notes.len(),
{
    if notes.len() > 0 {
        lemma_note_events_len(notes.drop_last());
    }
}

/// A file track of the song fits when the song does.
proof fn lemma_exported_track_fits(s: Sequencer, tempo: u32, i: int, events: Seq<SmfEventView>)
    requires
        0 <= i < s.tracks@.len(),
        exported_track(s, tempo, i, events),
        export_fits(s),
    ensures
        track_fits(events),
{
    let notes = s.tracks@[i].notes@;
    let name = s.tracks@[i].name@;
    let sorted = choose|sorted: Seq<NoteEvent>|
        #![trigger track_export(name, track_tempo(tempo, i), sorted, i as u8)]
        stable_tick_order(sorted, note_events(notes)) && sorted.len() == note_events(notes).len()
            && events == track_export(name, track_tempo(tempo, i), sorted, i as u8);
    lemma_note_events_len(notes);
    let head = seq![SmfEventView { delta: 0, kind: SmfEventKindView::TrackName(encode_utf8(name)) }];
    let tempo_events = match track_tempo(tempo, i) {
        Some(t) => seq![SmfEventView { delta: 0, kind: SmfEventKindView::Tempo(t) }],
        None => Seq::<SmfEventView>::empty(),
    };
    let body = delta_events(sorted, i as u8);
    let tail = seq![SmfEventView { delta: 0, kind: SmfEventKindView::EndOfTrack }];
    assert(events == head + tempo_events + body + tail);
    let h = 1 + tempo_events.len();
    assert(events.len() == h + sorted.len() + 1);
    assert(events.len() <= 2 * notes.len() + 3);
    assert forall|j: int| 1 <= j < events.len() implies name_bytes(#[trigger] events[j]) is None by {
        if j < h {
            assert(events[j] == tempo_events[j - 1]);
        } else if j < h + sorted.len() {
            assert(events[j] == body[j - h]);
        } else {
            assert(events[j] == tail[0]);
        }
    }
    assert(events[0] == head[0]);
    assert(name_bytes(events[0]) == Some(encode_utf8(name)));
}

/// The start and end events of the notes.
pub fn collect_note_events(notes: &Vec<Note>) -> (out: Vec<NoteEvent>)
    requires
        exportable(notes@),
    ensures
        out@ == note_events(notes@),
{
    let mut out: Vec<NoteEvent> = Vec::new();
    let mut j: usize = 0;
    assert(notes@.take(0) =~= Seq::<Note>::empty());
    while j < notes.len()
        invariant
            j <= notes@.len(),
            exportable(notes@),
            out@ == note_events(notes@.take(j as int)),
        decreases notes@.len() - j,
    {
        let n = notes[j];
        assert(note_end(notes@[j as int]) * MIDI_TICKS_PER_STEP <= u32::MAX);
        out.push(NoteEvent { tick: n.start_tick * MIDI_TICKS_PER_STEP, pitch: n.pitch, velocity: n.velocity, is_on: true });
        out.push(
            NoteEvent {
                tick: (n.start_tick + n.duration_ticks) * MIDI_TICKS_PER_STEP,
                pitch: n.pitch,
                velocity: 0,
                is_on: false,
            },
        );
        assert(notes@.take(j + 1).drop_last() =~= notes@.take(j as int));
        j += 1;
    }
    assert(notes@.take(notes@.len() as int) =~= notes@);
    out
}

/// The file events of one track: name, tempo where given, the notes in time order on
/// `channel`, end of track.
fn track_file_events(name: &String, notes: &Vec<Note>, tempo: Option<u32>, channel: u8) -> (out: Vec<SmfEvent>)
    requires
        exportable(notes@),
    ensures
        exists|sorted: Seq<NoteEvent>|
            #![trigger track_export(name@, tempo, sorted, channel)]
            stable_tick_order(sorted, note_events(notes@)) && sorted.len() == note_events(notes@).len()
                && events_view(out@) == track_export(
                name@,
                tempo,
                sorted,
                channel,
            ),
{
    let events = collect_note_events(notes);
    let sorted = sort_by_tick(&events);
    let mut out: Vec<SmfEvent> = Vec::new();
    let name_str = name.as_str();
    let bytes = vstd::slice::slice_to_vec(name_str.as_bytes());
    out.push(SmfEvent { delta: 0, kind: SmfEventKind::TrackName(bytes) });
    match tempo {
        Some(t) => out.push(SmfEvent { delta: 0, kind: SmfEventKind::Tempo(t) }),
        None => {},
    }
    let base = out.len();
    let ghost head = out@;
    let mut last: u32 = 0;
    let mut k: usize = 0;
    while k < sorted.len()
        invariant
            k <= sorted@.len(),
            stable_tick_order(sorted@, note_events(notes@)),
            out@.len() == base + k,
            base == head.len(),
            forall|m: int| 0 <= m < base ==> out@[m] == head[m],
            forall|m: int| 0 <= m < k ==> #[trigger] out@[base + m]@ == delta_event(sorted@, m, channel),
            last == prev_tick(sorted@, k as int),
        decreases sorted@.len() - k,
    {
        let e = sorted[k];
        proof {
            if k > 0 {
                assert(sorted@[k - 1].tick <= sorted@[k as int].tick);
            }
        }
        let delta = e.tick - last;
        let kind = if e.is_on {
            SmfEventKind::NoteOn { channel, key: e.pitch, vel: e.velocity }
        } else {
            SmfEventKind::NoteOff { channel, key: e.pitch, vel: 0 }
        };
        out.push(SmfEvent { delta, kind });
        last = e.tick;
        k += 1;
    }
    out.push(SmfEvent { delta: 0, kind: SmfEventKind::EndOfTrack });
    proof {
        let want = track_export(name@, tempo, sorted@, channel);
        assert(events_view(out@).len() == want.len());
        let tempo_events = match tempo {
            Some(t) => seq![SmfEventView { delta: 0, kind: SmfEventKindView::Tempo(t) }],
            None => Seq::<SmfEventView>::empty(),
        };
        let hv = seq![SmfEventView { delta: 0, kind: SmfEventKindView::TrackName(encode_utf8(name@)) }] + tempo_events;
        assert(bytes@ == encode_utf8(name@));
        assert(hv.len() == base);
        assert(want == hv + delta_events(sorted@, channel) + seq![
            SmfEventView { delta: 0, kind: SmfEventKindView::EndOfTrack },
        ]);
        assert forall|m: int| 0 <= m < want.len() implies events_view(out@)[m] == want[m] by {
            if m < base {
                assert(out@[m] == head[m]);
                if m == 0 {
                    assert(want[m] == hv[0]);
                } else {
                    assert(want[m] == hv[1]);
                }
            } else if m < base + sorted@.len() {
                assert(out@[base + (m - base)]@ == delta_event(sorted@, m - base, channel));
                assert(want[m] == delta_events(sorted@, channel)[m - base]);
            } else {
                assert(want[m] == SmfEventView { delta: 0, kind: SmfEventKindView::EndOfTrack });
            }
        }
        assert(events_view(out@) =~= want);
    }
    out
}

/// The MIDI ticks before the `n`-th event of a file track: the sum of the first `n` deltas.
pub open spec fn ticks_before(events: Seq<SmfEventView>, n: int) -> int
    decreases n,
{
    if n <= 0 {
        0
    } else {
        ticks_before(events, n - 1) + events[n - 1].delta
    }
}

/// The notes' starts and ends among the first `n` events of a file track, each at the MIDI
/// tick where the track reaches it, in the track's order.
pub open spec fn file_notes(events: Seq<SmfEventView>, n: int) -> Seq<NoteEvent>
    decreases n,
{
    if n <= 0 {
        Seq::empty()
    } else {
        let rest = file_notes(events, n - 1);
        let tick = (ticks_before(events, n - 1) + events[n - 1].delta) as u32;
        match events[n - 1].kind {
            SmfEventKindView::NoteOn { key, vel, .. } => rest.push(
                NoteEvent { tick, pitch: key, velocity: vel, is_on: true },
            ),
            SmfEventKindView::NoteOff { key, vel, .. } => rest.push(
                NoteEvent { tick, pitch: key, velocity: vel, is_on: false },
            ),
            _ => rest,
        }
    }
}

/// Sorting stably by tick keeps every event: the same multiset of events.
proof fn lemma_stable_order_same_events(out: Seq<NoteEvent>, inp: Seq<NoteEvent>)
    requires
        stable_tick_order(out, inp),
    ensures
        out.to_multiset() == inp.to_multiset(),
{
    assert forall|e: NoteEvent| out.to_multiset().count(e) == inp.to_multiset().count(e) by {
        let p = |x: NoteEvent| x.tick == e.tick;
        lemma_filter_count(out, p, e);
        lemma_filter_count(inp, p, e);
        assert(at_tick(out, e.tick) == at_tick(inp, e.tick));
    }
    assert(out.to_multiset() =~= inp.to_multiset());
}

/// A note's end event has velocity 0.
proof fn lemma_note_events_off_silent(notes: Seq<Note>)
    ensures
        forall|k: int|
            0 <= k < note_events(notes).len() ==> #[trigger] note_events(notes)[k].is_on || note_events(
                notes,
            )[k].velocity == 0,
    decreases notes.len(),
{
    if notes.len() > 0 {
        lemma_note_events_off_silent(notes.drop_last());
        let a = note_events(notes.drop_last());
        let b = seq![note_on_event(notes.last()), note_off_event(notes.last())];
        assert forall|k: int| 0 <= k < note_events(notes).len() implies #[trigger] note_events(notes)[k].is_on
            || note_events(notes)[k].velocity == 0 by {
            if k < a.len() {
                assert(note_events(notes)[k] == a[k]);
            } else {
                assert(note_events(notes)[k] == b[k - a.len()]);
            }
        }
    }
}

proof fn lemma_ticks_monotone(events: Seq<SmfEventView>, j: int, k: int)
    requires
        0 <= j <= k <= events.len(),
    ensures
        ticks_before(events, j) <= ticks_before(events, k),
    decreases k - j,
{
    if j < k {
        lemma_ticks_monotone(events, j, k - 1);
    }
}

proof fn lemma_header_events(events: Seq<SmfEventView>, n: int)
    requires
        0 <= n <= events.len(),
        forall|k: int| 0 <= k < n ==> (#[trigger] events[k]).delta == 0 && !(events[k].kind is NoteOn)
            && !(events[k].kind is NoteOff),
    ensures
        ticks_before(events, n) == 0,
        file_notes(events, n) == Seq::<NoteEvent>::empty(),
    decreases n,
{
    if n > 0 {
        lemma_header_events(events, n - 1);
        let e = events[n - 1];
        assert(e.delta == 0 && !(e.kind is NoteOn) && !(e.kind is NoteOff));
    }
}

proof fn lemma_note_part(events: Seq<SmfEventView>, sorted: Seq<NoteEvent>, h: int, ch: u8, n: int)
    requires
        0 <= h <= n <= h + sorted.len() <= events.len(),
        ticks_before(events, h) == 0,
        file_notes(events, h) == Seq::<NoteEvent>::empty(),
        tick_sorted(sorted),
        forall|k: int| 0 <= k < sorted.len() ==> (#[trigger] sorted[k]).is_on || sorted[k].velocity == 0,
        forall|k: int| h <= k < h + sorted.len() ==> #[trigger] events[k] == delta_event(sorted, k - h, ch),
    ensures
        ticks_before(events, n) == prev_tick(sorted, n - h),
        file_notes(events, n) == sorted.take(n - h),
    decreases n - h,
{
    if n > h {
        lemma_note_part(events, sorted, h, ch, n - 1);
        let j = n - 1 - h;
        let x = sorted[j];
        assert(events[n - 1] == delta_event(sorted, j, ch));
        if j > 0 {
            assert(sorted[j - 1].tick <= x.tick);
        }
        assert(x.is_on || x.velocity == 0);
        assert(sorted.take(j + 1) =~= sorted.take(j).push(x));
    } else {
        assert(sorted.take(0) =~= Seq::<NoteEvent>::empty());
    }
}

/// What a file track holds of the song's track: read from its events, with each event's
/// MIDI tick the sum of the deltas up to it, the starts and ends of the notes are the
/// song's, at 48 MIDI ticks per sequencer tick (a start with the note's velocity, an end with
/// velocity 0, as the same multiset), every note message is on the track's channel, and
/// the ticks never go back.
pub proof fn lemma_exported_notes(s: Sequencer, tempo: u32, i: int, events: Seq<SmfEventView>)
    requires
        0 <= i < s.tracks@.len(),
        exported_track(s, tempo, i, events),
    ensures
        file_notes(events, events.len() as int).to_multiset() == note_events(s.tracks@[i].notes@).to_multiset(),
        forall|k: int|
            0 <= k < events.len() ==> match (#[trigger] events[k]).kind {
                SmfEventKindView::NoteOn { channel, .. } => channel == i as u8,
                SmfEventKindView::NoteOff { channel, .. } => channel == i as u8,
                _ => true,
            },
        forall|j: int, k: int|
            0 <= j <= k <= events.len() ==> #[trigger] ticks_before(events, j) <= #[trigger] ticks_before(events, k),
{
    let notes = s.tracks@[i].notes@;
    let name = s.tracks@[i].name@;
    let ch = i as u8;
    let sorted = choose|sorted: Seq<NoteEvent>|
        #![trigger track_export(name, track_tempo(tempo, i), sorted, i as u8)]
        stable_tick_order(sorted, note_events(notes)) && sorted.len() == note_events(notes).len()
            && events == track_export(name, track_tempo(tempo, i), sorted, i as u8);
    let head = seq![SmfEventView { delta: 0, kind: SmfEventKindView::TrackName(encode_utf8(name)) }];
    let tempo_events = match track_tempo(tempo, i) {
        Some(t) => seq![SmfEventView { delta: 0, kind: SmfEventKindView::Tempo(t) }],
        None => Seq::<SmfEventView>::empty(),
    };
    let body = delta_events(sorted, ch);
    let tail = seq![SmfEventView { delta: 0, kind: SmfEventKindView::EndOfTrack }];
    assert(events == head + tempo_events + body + tail);
    let h: int = 1 + tempo_events.len() as int;
    let m = sorted.len() as int;
    assert(events.len() == h + m + 1);
    assert forall|k: int| 0 <= k < h implies #[trigger] events[k] == (if k == 0 {
        head[0]
    } else {
        tempo_events[k - 1]
    }) by {}
    assert forall|k: int| h <= k < h + m implies #[trigger] events[k] == delta_event(sorted, k - h, ch) by {
        assert(events[k] == body[k - h]);
    }
    assert(events[h + m] == tail[0]);

    assert forall|k: int| 0 <= k < h implies (#[trigger] events[k]).delta == 0 && !(events[k].kind is NoteOn)
        && !(events[k].kind is NoteOff) by {
        if k == 0 {
            assert(events[k] == head[0]);
        } else {
            assert(events[k] == tempo_events[k - 1]);
        }
    }
    lemma_header_events(events, h);
    lemma_stable_order_same_events(sorted, note_events(notes));
    lemma_note_events_off_silent(notes);
    assert forall|k: int| 0 <= k < sorted.len() implies (#[trigger] sorted[k]).is_on || sorted[k].velocity == 0 by {
        broadcast use vstd::seq_lib::group_to_multiset_ensures;

        assert(sorted.contains(sorted[k]));
        assert(sorted.to_multiset().count(sorted[k]) > 0);
        assert(note_events(notes).to_multiset().count(sorted[k]) > 0);
        assert(note_events(notes).contains(sorted[k]));
        let q = choose|q: int| 0 <= q < note_events(notes).len() && note_events(notes)[q] == sorted[k];
        assert(note_events(notes)[q].is_on || note_events(notes)[q].velocity == 0);
    }
    lemma_note_part(events, sorted, h, ch, h + m);
    assert(events[h + m].delta == 0);
    assert(file_notes(events, h + m + 1) == file_notes(events, h + m));
    assert(sorted.take(m) =~= sorted);
    assert forall|k: int| 0 <= k < events.len() implies match (#[trigger] events[k]).kind {
        SmfEventKindView::NoteOn { channel, .. } => channel == i as u8,
        SmfEventKindView::NoteOff { channel, .. } => channel == i as u8,
        _ => true,
    } by {
        if k < h {
        } else if k < h + m {
            assert(events[k] == delta_event(sorted, k - h, ch));
        }
    }
    assert forall|j: int, k: int| 0 <= j <= k <= events.len() implies #[trigger] ticks_before(events, j)
        <= #[trigger] ticks_before(events, k) by {
        lemma_ticks_monotone(events, j, k);
    }
}

/// Why a MIDI file could not be written.
#[derive(Debug, Clone, PartialEq, Eq)]
pub enum MidiExportError {
    /// The encoder refused the file, with its message.
    Encoding(String),
}

impl Sequencer {
    /// The file tracks of the sequencer: per track its name (and on the first track the tempo,
    /// `tempo` microseconds per quarter note), then each note's start and end at 48
    /// MIDI ticks per sequencer tick, stably sorted by time, on the track's MIDI channel, then
    /// the end of the track.
    pub fn export_tracks(&self, tempo: u32) -> (out: Vec<Vec<SmfEvent>>)
        requires
            can_export(*self),
        ensures
            exported_tracks(*self, tempo, tracks_view(out@)),
    {
        let mut out: Vec<Vec<SmfEvent>> = Vec::new();
        let mut i: usize = 0;
        while i < self.tracks.len()
            invariant
                i <= self.tracks@.len(),
                can_export(*self),
                out@.len() == i,
                forall|m: int| 0 <= m < i ==> exported_track(*self, tempo, m, #[trigger] tracks_view(out@)[m]),
            decreases self.tracks@.len() - i,
        {
            let file_tempo = if i > 0 {
                None
            } else {
                Some(tempo)
            };
            let track = &self.tracks[i];
            assert(exportable(self.tracks@[i as int].notes@));
            let events = track_file_events(&track.name, &track.notes, file_tempo, i as u8);
            let ghost before = out@;
            out.push(events);
            proof {
                assert forall|m: int| 0 <= m <= i implies exported_track(*self, tempo, m, #[trigger] tracks_view(out@)[m]) by {
                    if m < i {
                        assert(tracks_view(out@)[m] == tracks_view(before)[m]);
                    } else {
                        assert(tracks_view(out@)[m] == events_view(events@));
                        assert(track_tempo(tempo, m) == file_tempo);
                    }
                }
            }
            i += 1;
        }
        out
    }

    /// Encodes the sequencer as a Standard MIDI File (parallel tracks, 192 ticks per quarter
    /// note, `tempo` microseconds per quarter note): the outcome of writing the tracks of
    /// `export_tracks`, which succeeds whenever the
    /// song is within `export_fits`.
    pub fn export_to_midi(&self, tempo: u32) -> (r: Result<Vec<u8>, MidiExportError>)
        requires
            can_export(*self),
        ensures
            exists|tracks: Seq<Seq<SmfEventView>>|
                #![trigger smf_write(SmfFormat::Parallel, FILE_TICKS_PER_BEAT, tracks)]
                exported_tracks(*self, tempo, tracks) && match r {
                    Ok(b) => smf_write(SmfFormat::Parallel, FILE_TICKS_PER_BEAT, tracks) == Some(b@),
                    Err(_) => smf_write(SmfFormat::Parallel, FILE_TICKS_PER_BEAT, tracks) is None,
                },
            export_fits(*self) ==> r is Ok,
    {
        let tracks = self.export_tracks(tempo);
        proof {
            let tv = tracks_view(tracks@);
            if export_fits(*self) {
                assert forall|i: int| 0 <= i < tv.len() implies track_fits(#[trigger] tv[i]) by {
                    lemma_exported_track_fits(*self, tempo, i, tv[i]);
                }
            }
        }
        match write_smf(SmfFormat::Parallel, FILE_TICKS_PER_BEAT, &tracks) {
            Ok(b) => Ok(b),
            Err(msg) => Err(MidiExportError::Encoding(msg.to_owned())),
        }
    }
}

} // verus!
