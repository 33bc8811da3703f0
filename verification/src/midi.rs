//! Quantized per-voice pitch-timeline extraction from a multi-track MIDI
//! byte stream.
//!
//! The byte stream is decoded once, fully; each of the first four tracks
//! becomes one voice. Per track, note-on events with positive velocity are
//! recorded at their absolute tick; the recording is then sampled on a
//! uniform sixteenth-note grid from tick 0 to the last recorded tick with
//! sustain semantics, leading silence is backfilled with the first sounding
//! pitch, and the voices are aligned into a single frame sequence, shorter
//! voices zero-padded at the tail.

use vstd::arithmetic::div_mod::lemma_fundamental_div_mod_converse;
use vstd::pervasive::VecAdditionalExecFns;
use vstd::prelude::*;

verus! {

/// One decoded track event: its delta time in ticks and, when it is a
/// note-on, the key and velocity.
pub type RawEvent = (u32, Option<(u8, u8)>);

/// Why a byte stream yields no frame sequence.
#[derive(Clone, Copy, Debug, PartialEq, Eq, Structural)]
pub enum MidiError {
    /// The bytes are not a well-formed MIDI file.
    ParseError,
    /// The file does not use metrical (ticks-per-quarter-note) timing, or
    /// its resolution is too coarse to carry a sixteenth-note grid.
    TimingUnsupported,
}

/// What decoding a MIDI byte stream yields: a function of the bytes alone.
/// `Err` stands for a malformed stream; otherwise the timing declaration
/// (ticks per quarter note for metrical timing, nothing for any other) and
/// the per-track event lists.
pub uninterp spec fn smf_events_of(data: Seq<u8>) -> Result<
    (Option<u16>, Seq<Seq<RawEvent>>),
    (),
>;

/// midly's error type, declared opaquely so the decoding wrapper can hand
/// it back and verified code can map it to `MidiError::ParseError`.
#[verifier::external_type_specification]
#[verifier::external_body]
pub struct ExMidlyError(midly::Error);

/// The per-track event lists of a decoded file, as sequences.
pub open spec fn tracks_view(tracks: Vec<Vec<RawEvent>>) -> Seq<Seq<RawEvent>> {
    tracks@.map_values(|t: Vec<RawEvent>| t@)
}

/// Relies on midly::Smf::parse to decode a standard MIDI file. The timing
/// declaration is metrical ticks per quarter note or nothing; each track
/// event is handed on as its delta time plus key and velocity when it is a
/// note-on message. The decoded value depends on the bytes alone.
#[verifier::external_body]
fn parse_smf(data: &[u8]) -> (r: Result<(Option<u16>, Vec<Vec<RawEvent>>), midly::Error>)
    ensures
        match r {
            Ok((timing, tracks)) => smf_events_of(data@) == Ok::<_, ()>(
                (timing, tracks_view(tracks)),
            ),
            Err(_) => smf_events_of(data@) is Err,
        },
{
    let smf = midly::Smf::parse(data)?;
    let timing = match smf.header.timing {
        midly::Timing::Metrical(t) => Some(t.as_int()),
        midly::Timing::Timecode(_, _) => None,
    };
    let tracks: Vec<Vec<RawEvent>> = smf.tracks.iter().map(|track|
        track.iter().map(|ev| (ev.delta.as_int(), match ev.kind {
            midly::TrackEventKind::Midi {
                message: midly::MidiMessage::NoteOn { key, vel }, ..
            } => Some((key.as_int(), vel.as_int())),
            _ => None,
        })).collect()).collect();
    Ok((timing, tracks))
}

/// The absolute tick position after the first `i` events of a track: the
/// sum of their delta times.
pub open spec fn abs_tick_at(evs: Seq<RawEvent>, i: int) -> int
    decreases i,
{
    if i <= 0 {
        0
    } else {
        abs_tick_at(evs, i - 1) + evs[i - 1].0
    }
}

/// The `(absolute tick, pitch)` pairs recorded from the first `i` events of
/// a track: one pair per note-on with strictly positive velocity, in event
/// order. A note-on with velocity 0 records nothing.
pub open spec fn note_ons_prefix(evs: Seq<RawEvent>, i: int) -> Seq<(u128, u8)>
    decreases i,
{
    if i <= 0 {
        Seq::empty()
    } else {
        let rest = note_ons_prefix(evs, i - 1);
        match evs[i - 1].1 {
            Some(kv) => if kv.1 > 0 {
                rest.push((abs_tick_at(evs, i) as u128, kv.0))
            } else {
                rest
            },
            None => rest,
        }
    }
}

/// All recorded `(absolute tick, pitch)` pairs of a track.
pub open spec fn note_ons(evs: Seq<RawEvent>) -> Seq<(u128, u8)> {
    note_ons_prefix(evs, evs.len() as int)
}

/// The most recently recorded pitch at or before tick `t`: absolute ticks
/// never decrease along a track, so the last pair with tick at most `t` is
/// the one at the greatest such tick, the latest recording winning there;
/// nothing if no pair carries such a tick.
pub open spec fn pitch_at_or_before(pairs: Seq<(u128, u8)>, t: int) -> Option<u8>
    decreases pairs.len(),
{
    if pairs.len() == 0 {
        None
    } else if pairs.last().0 <= t {
        Some(pairs.last().1)
    } else {
        pitch_at_or_before(pairs.drop_last(), t)
    }
}

/// The largest recorded tick, 0 when nothing was recorded.
pub open spec fn max_tick(pairs: Seq<(u128, u8)>) -> int
    decreases pairs.len(),
{
    if pairs.len() == 0 {
        0
    } else {
        let rest = max_tick(pairs.drop_last());
        if pairs.last().0 > rest {
            pairs.last().0 as int
        } else {
            rest
        }
    }
}

/// The timeline sample at grid index `j` (grid step `s` ticks): the most
/// recently recorded pitch at or before tick `j * s` sustained (step
/// semantics), 0 before the first recorded event.
pub open spec fn sample_at(pairs: Seq<(u128, u8)>, s: int, j: int) -> i32 {
    match pitch_at_or_before(pairs, j * s) {
        Some(p) => p as i32,
        None => 0,
    }
}

/// The quantized, sustain-filled timeline of one track: samples on the
/// uniform grid from tick 0 to the last recorded tick inclusive.
pub open spec fn track_timeline(evs: Seq<RawEvent>, s: int) -> Seq<i32> {
    Seq::new((max_tick(note_ons(evs)) / s + 1) as nat, |j: int| sample_at(note_ons(evs), s, j))
}

/// The index of the first non-zero sample, or the length when every sample
/// is zero.
pub open spec fn first_nonzero(tl: Seq<i32>) -> int
    decreases tl.len(),
{
    if tl.len() == 0 {
        0
    } else if tl[0] != 0 {
        0
    } else {
        1 + first_nonzero(tl.skip(1))
    }
}

/// The timeline with its leading silence backfilled: every zero sample
/// before the first non-zero one is replaced by that value; everything from
/// the first non-zero sample on is unchanged, and an all-zero timeline
/// stays as it is.
pub open spec fn backfilled(tl: Seq<i32>) -> Seq<i32> {
    let k = first_nonzero(tl);
    if k >= tl.len() {
        tl
    } else {
        Seq::new(tl.len(), |i: int| if i < k { tl[k] } else { tl[i] })
    }
}

/// The timeline of voice `v`: the backfilled track timeline where the track
/// exists, an empty (all-silent) timeline where it does not.
pub open spec fn voice_timeline(tracks: Seq<Seq<RawEvent>>, s: int, v: int) -> Seq<i32> {
    if v < tracks.len() {
        backfilled(track_timeline(tracks[v], s))
    } else {
        Seq::empty()
    }
}

pub open spec fn max2(a: int, b: int) -> int {
    if a >= b {
        a
    } else {
        b
    }
}

/// The frame-sequence length: the longest voice timeline.
pub open spec fn frames_len(tracks: Seq<Seq<RawEvent>>, s: int) -> int {
    max2(
        max2(voice_timeline(tracks, s, 0).len() as int, voice_timeline(tracks, s, 1).len() as int),
        max2(voice_timeline(tracks, s, 2).len() as int, voice_timeline(tracks, s, 3).len() as int),
    )
}

/// Voice `v`'s contribution to frame `i`: its sample where its timeline
/// reaches index `i`, else 0 (tail padding).
pub open spec fn voice_sample(tl: Seq<i32>, i: int) -> i32 {
    if 0 <= i < tl.len() {
        tl[i]
    } else {
        0
    }
}

/// The full extraction contract: `r` is the aligned frame sequence of the
/// first four tracks on the sixteenth-note grid `tpq / 4`.
pub open spec fn frames_ok(r: Seq<[i32; 4]>, tracks: Seq<Seq<RawEvent>>, tpq: int) -> bool {
    let s = tpq / 4;
    &&& r.len() == frames_len(tracks, s)
    &&& forall|i: int, v: int|
        0 <= i < r.len() && 0 <= v < 4 ==> #[trigger] r[i]@[v] == voice_sample(
            voice_timeline(tracks, s, v),
            i,
        )
}

/// Law: the first non-zero sample splits a timeline into leading zeros and
/// the rest.
pub proof fn lemma_first_nonzero_char(tl: Seq<i32>)
    ensures
        0 <= first_nonzero(tl) <= tl.len(),
        forall|i: int| 0 <= i < first_nonzero(tl) ==> tl[i] == 0,
        first_nonzero(tl) < tl.len() ==> tl[first_nonzero(tl)] != 0,
    decreases tl.len(),
{
    if tl.len() == 0 {
    } else if tl[0] != 0 {
    } else {
        lemma_first_nonzero_char(tl.skip(1));
        let k = first_nonzero(tl);
        assert forall|i: int| 0 <= i < k implies tl[i] == 0 by {
            if i > 0 {
                assert(tl.skip(1)[i - 1] == tl[i]);
            }
        }
        if k < tl.len() {
            assert(tl.skip(1)[k - 1] == tl[k]);
        }
    }
}

/// Law (silence backfill): where a timeline has its first non-zero value
/// `v` at index `k`, the backfilled timeline holds `v` at every index
/// before `k` and is unchanged from `k` on.
pub proof fn lemma_backfill(tl: Seq<i32>)
    requires
        first_nonzero(tl) < tl.len(),
    ensures
        backfilled(tl).len() == tl.len(),
        forall|i: int| 0 <= i < first_nonzero(tl) ==> backfilled(tl)[i] == tl[first_nonzero(tl)],
        forall|i: int| first_nonzero(tl) <= i < tl.len() ==> backfilled(tl)[i] == tl[i],
{
    lemma_first_nonzero_char(tl);
}

/// Law: the frame-sequence length is the longest voice timeline: no voice
/// is longer, and one voice reaches it.
pub proof fn lemma_frames_len_is_max(tracks: Seq<Seq<RawEvent>>, s: int)
    ensures
        forall|v: int|
            0 <= v < 4 ==> (#[trigger] voice_timeline(tracks, s, v).len() as int) <= frames_len(
                tracks,
                s,
            ),
        exists|v: int|
            0 <= v < 4 && (#[trigger] voice_timeline(tracks, s, v).len() as int) == frames_len(
                tracks,
                s,
            ),
{
    let l0 = voice_timeline(tracks, s, 0).len() as int;
    let l1 = voice_timeline(tracks, s, 1).len() as int;
    let l2 = voice_timeline(tracks, s, 2).len() as int;
    let l3 = voice_timeline(tracks, s, 3).len() as int;
    let m = frames_len(tracks, s);
    if m == l0 {
        assert(voice_timeline(tracks, s, 0).len() as int == m);
    } else if m == l1 {
        assert(voice_timeline(tracks, s, 1).len() as int == m);
    } else if m == l2 {
        assert(voice_timeline(tracks, s, 2).len() as int == m);
    } else {
        assert(voice_timeline(tracks, s, 3).len() as int == m);
    }
}

fn pitch_lookup(pairs: &Vec<(u128, u8)>, t: u128) -> (r: Option<u8>)
    ensures
        r == pitch_at_or_before(pairs@, t as int),
{
    let mut r: Option<u8> = None;
    let n = pairs.len();
    for k in 0..n
        invariant
            n == pairs@.len(),
            r == pitch_at_or_before(pairs@.take(k as int), t as int),
    {
        proof {
            assert(pairs@.take(k + 1).drop_last() =~= pairs@.take(k as int));
            assert(pairs@.take(k + 1).last() == pairs@[k as int]);
        }
        if pairs[k].0 <= t {
            r = Some(pairs[k].1);
        }
    }
    proof {
        assert(pairs@.take(n as int) =~= pairs@);
    }
    r
}

/// The quantized, sustain-filled timeline of one track, before backfill.
fn build_timeline(track: &Vec<RawEvent>, step: u16) -> (tl: Vec<i32>)
    requires
        step >= 1,
    ensures
        tl@ == track_timeline(track@, step as int),
{
    let ghost evs = track@;
    let mut pairs: Vec<(u128, u8)> = Vec::new();
    let mut abs: u128 = 0;
    let n = track.len();
    for i in 0..n
        invariant
            n == evs.len(),
            evs == track@,
            abs == abs_tick_at(evs, i as int),
            abs <= (i as int) * 0x1_0000_0000,
            pairs@ == note_ons_prefix(evs, i as int),
            forall|k: int| 0 <= k < pairs@.len() ==> #[trigger] pairs@[k].0 <= abs,
    {
        let ev = track[i];
        abs = abs + ev.0 as u128;
        if let Some(kv) = ev.1 {
            if kv.1 > 0 {
                pairs.push((abs, kv.0));
            }
        }
    }
    proof {
        assert(abs <= (n as int) * 0x1_0000_0000);
        assert((n as int) <= usize::MAX as int);
        assert(abs <= 0x1_0000_0000_0000_0000_0000_0000u128);
    }
    let mut maxt: u128 = 0;
    let m = pairs.len();
    for k in 0..m
        invariant
            m == pairs@.len(),
            maxt == max_tick(pairs@.take(k as int)),
            maxt <= 0x1_0000_0000_0000_0000_0000_0000u128,
            forall|j: int| 0 <= j < pairs@.len() ==> #[trigger] pairs@[j].0 <= abs,
            abs <= 0x1_0000_0000_0000_0000_0000_0000u128,
    {
        proof {
            assert(pairs@.take(k + 1).drop_last() =~= pairs@.take(k as int));
            assert(pairs@.take(k + 1).last() == pairs@[k as int]);
        }
        if pairs[k].0 > maxt {
            maxt = pairs[k].0;
        }
    }
    proof {
        assert(pairs@.take(m as int) =~= pairs@);
    }
    let ghost s = step as int;
    let step_wide = step as u128;
    let mut timeline: Vec<i32> = Vec::new();
    let mut tick: u128 = 0;
    while tick <= maxt
        invariant
            1 <= s <= 0x10000,
            s == step_wide as int,
            maxt == max_tick(pairs@),
            maxt <= 0x1_0000_0000_0000_0000_0000_0000u128,
            tick == timeline@.len() * s,
            tick <= maxt + s,
            forall|j: int|
                0 <= j < timeline@.len() ==> #[trigger] timeline@[j] == sample_at(pairs@, s, j),
        decreases maxt + s - tick,
    {
        let note: i32 = match pitch_lookup(&pairs, tick) {
            Some(p) => p as i32,
            None => 0,
        };
        let ghost j = timeline@.len() as int;
        timeline.push(note);
        proof {
            assert((j + 1) * s == j * s + s) by (nonlinear_arith);
        }
        tick = tick + step_wide;
    }
    proof {
        let len = timeline@.len() as int;
        assert(len * s == (len - 1) * s + s) by (nonlinear_arith);
        if len == 0 {
            assert(len * s == 0) by (nonlinear_arith)
                requires
                    len == 0,
            ;
        }
        assert(len >= 1);
        assert((len - 1) * s <= max_tick(pairs@) < len * s);
        lemma_fundamental_div_mod_converse(
            max_tick(pairs@),
            s,
            len - 1,
            max_tick(pairs@) - (len - 1) * s,
        );
        assert(timeline@ =~= track_timeline(track@, step as int));
    }
    timeline
}

/// Backfill leading silence in place: every zero sample before the first
/// non-zero one is replaced by that first sounding pitch.
pub fn backfill(timeline: &mut Vec<i32>)
    ensures
        final(timeline)@ == backfilled(old(timeline)@),
{
    proof {
        lemma_first_nonzero_char(old(timeline)@);
    }
    let n = timeline.len();
    let mut k: usize = 0;
    while k < n && timeline[k] == 0
        invariant
            n == timeline@.len(),
            timeline@ == old(timeline)@,
            k <= n,
            forall|i: int| 0 <= i < k ==> timeline@[i] == 0,
        decreases n - k,
    {
        k = k + 1;
    }
    assert(k as int == first_nonzero(old(timeline)@));
    if k < n {
        let v = timeline[k];
        let mut i: usize = 0;
        while i < k
            invariant
                i <= k,
                k < n,
                n == timeline@.len(),
                k as int == first_nonzero(old(timeline)@),
                v == old(timeline)@[k as int],
                forall|j: int| 0 <= j < i ==> timeline@[j] == v,
                forall|j: int| i <= j < n ==> timeline@[j] == old(timeline)@[j],
            decreases k - i,
        {
            timeline.set(i, v);
            i = i + 1;
        }
        assert(timeline@ =~= backfilled(old(timeline)@));
    }
}

fn voice_sample_of(tl: &Vec<i32>, i: usize) -> (r: i32)
    ensures
        r == voice_sample(tl@, i as int),
{
    if i < tl.len() {
        tl[i]
    } else {
        0
    }
}

/// Build the aligned frame sequence of the first four tracks: per-track
/// quantized timelines, leading-silence backfill, and tail zero-padding up
/// to the longest voice.
pub fn extract_frames(tpq: u16, tracks: &Vec<Vec<RawEvent>>) -> (r: Vec<[i32; 4]>)
    requires
        tpq >= 4,
    ensures
        frames_ok(r@, tracks_view(*tracks), tpq as int),
{
    let step = tpq / 4;
    let ghost s = (tpq as int) / 4;
    let ghost tv = tracks_view(*tracks);
    let mut tls: Vec<Vec<i32>> = Vec::new();
    let mut v: usize = 0;
    while v < 4
        invariant
            v <= 4,
            s == step as int,
            step >= 1,
            tv == tracks_view(*tracks),
            tls@.len() == v,
            forall|w: int| 0 <= w < v ==> #[trigger] tls@[w]@ == voice_timeline(tv, s, w),
        decreases 4 - v,
    {
        if v < tracks.len() {
            let mut tl = build_timeline(&tracks[v], step);
            backfill(&mut tl);
            tls.push(tl);
        } else {
            tls.push(Vec::new());
        }
        v = v + 1;
    }
    let mut len = tls[0].len();
    if tls[1].len() > len {
        len = tls[1].len();
    }
    if tls[2].len() > len {
        len = tls[2].len();
    }
    if tls[3].len() > len {
        len = tls[3].len();
    }
    assert(len as int == frames_len(tv, s));
    let mut out: Vec<[i32; 4]> = Vec::new();
    let mut i: usize = 0;
    while i < len
        invariant
            i <= len,
            tls@.len() == 4,
            len as int == frames_len(tv, s),
            forall|w: int| 0 <= w < 4 ==> #[trigger] tls@[w]@ == voice_timeline(tv, s, w),
            out@.len() == i,
            forall|ii: int, w: int|
                0 <= ii < i && 0 <= w < 4 ==> #[trigger] out@[ii]@[w] == voice_sample(
                    voice_timeline(tv, s, w),
                    ii,
                ),
        decreases len - i,
    {
        let frame: [i32; 4] = [
            voice_sample_of(&tls[0], i),
            voice_sample_of(&tls[1], i),
            voice_sample_of(&tls[2], i),
            voice_sample_of(&tls[3], i),
        ];
        out.push(frame);
        i = i + 1;
    }
    out
}

/// Decode a MIDI byte stream into the aligned frame sequence. A malformed
/// stream yields `ParseError`; a stream without metrical timing, or with a
/// resolution under 4 ticks per quarter note (no sixteenth-note grid),
/// yields `TimingUnsupported`; every other stream yields exactly the frame
/// sequence that `frames_ok` describes.
pub fn parse(data: &[u8]) -> (r: Result<Vec<[i32; 4]>, MidiError>)
    ensures
        match smf_events_of(data@) {
            Err(_) => r == Err::<Vec<[i32; 4]>, MidiError>(MidiError::ParseError),
            Ok((timing, tracks)) => match timing {
                None => r == Err::<Vec<[i32; 4]>, MidiError>(MidiError::TimingUnsupported),
                Some(tpq) => if tpq < 4 {
                    r == Err::<Vec<[i32; 4]>, MidiError>(MidiError::TimingUnsupported)
                } else {
                    r matches Ok(frames) && frames_ok(frames@, tracks, tpq as int)
                },
            },
        },
{
    match parse_smf(data) {
        Err(_) => Err(MidiError::ParseError),
        Ok((timing, tracks)) => match timing {
            None => Err(MidiError::TimingUnsupported),
            Some(tpq) => if tpq < 4 {
                Err(MidiError::TimingUnsupported)
            } else {
                Ok(extract_frames(tpq, &tracks))
            },
        },
    }
}

} // verus!
