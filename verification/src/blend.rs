//! Blending of the frame track across phoneme boundaries, and the closing
//! pass over pitch and loudness.

use vstd::prelude::*;
use crate::bytes::{add8, magnitude, sub8, wrap_add, wrap_sub};
use crate::formants::{FormantTables, Params};
use crate::frames::{
    expand_phonemes, expanded, lemma_expanded_len, lemma_total_frames_monotonic, total_frames,
    FrameSeq, FramesTables, MAX_FRAMES,
};
use crate::phonemes::{PhonemeSeq, Phonemes, SynthError};
use crate::tables::{
    entry, lookup, AMPLITUDE_RESCALE, BLEND_RANK, IN_BLEND_LENGTH, OUT_BLEND_LENGTH,
};

verus! {

/// The whole step of a ramp: the signed difference divided by the number of
/// frames, rounded towards zero, as a byte.
pub open spec fn ramp_step(delta: u8, length: int) -> u8 {
    if delta < 128 {
        (delta as int / length) as u8
    } else {
        wrap_sub(0, ((256 - delta as int) / length) as u8)
    }
}

/// What the whole steps of a ramp leave of the difference.
pub open spec fn ramp_remainder(delta: u8, length: int) -> int {
    magnitude(delta) % length
}

/// A frame value with the correction of one unit in the direction of the
/// difference; a rising ramp leaves a zero at zero.
pub open spec fn corrected(value: u8, delta: u8) -> u8 {
    if delta < 128 {
        if value != 0 {
            wrap_add(value, 1)
        } else {
            value
        }
    } else {
        wrap_sub(value, 1)
    }
}

/// The track after the frames `start + k` to `start + length - 1` have been
/// rewritten, each from the frame before it, with `carry` of the remainder
/// gathered so far.
pub open spec fn ramped_from(
    track: Seq<u8>,
    start: int,
    length: int,
    delta: u8,
    k: int,
    carry: int,
) -> Seq<u8>
    decreases length - k,
{
    if 1 <= k < length && 0 <= start && start + length <= track.len() {
        let base = wrap_add(track[start + k - 1], ramp_step(delta, length));
        let gathered = carry + ramp_remainder(delta, length);
        if gathered >= length {
            ramped_from(
                track.update(start + k, corrected(base, delta)),
                start,
                length,
                delta,
                k + 1,
                gathered - length,
            )
        } else {
            ramped_from(track.update(start + k, base), start, length, delta, k + 1, gathered)
        }
    } else {
        track
    }
}

/// The track with a ramp of `length` frames laid from frame `start`: every
/// frame after the first is the frame before it plus the whole step, and plus
/// one unit of correction each time the gathered remainder reaches `length`.
pub open spec fn ramped(track: Seq<u8>, start: int, length: int, delta: u8) -> Seq<u8> {
    ramped_from(track, start, length, delta, 1, 0)
}

/// A ramp keeps the length of its track and every frame outside
/// `start + 1 .. start + length`.
pub proof fn lemma_ramped_from_frame(
    track: Seq<u8>,
    start: int,
    length: int,
    delta: u8,
    k: int,
    carry: int,
)
    requires
        1 <= k,
    ensures
        ramped_from(track, start, length, delta, k, carry).len() == track.len(),
        forall|j: int|
            0 <= j < track.len() && !(start + k <= j < start + length) ==> ramped_from(
                track,
                start,
                length,
                delta,
                k,
                carry,
            )[j] == #[trigger] track[j],
    decreases length - k,
{
    if 1 <= k < length && 0 <= start && start + length <= track.len() {
        let base = wrap_add(track[start + k - 1], ramp_step(delta, length));
        let gathered = carry + ramp_remainder(delta, length);
        let value = if gathered >= length {
            corrected(base, delta)
        } else {
            base
        };
        let rest = if gathered >= length {
            gathered - length
        } else {
            gathered
        };
        let written = track.update(start + k, value);
        lemma_ramped_from_frame(written, start, length, delta, k + 1, rest);
        assert forall|j: int|
            0 <= j < track.len() && !(start + k <= j < start + length) implies ramped_from(
            track,
            start,
            length,
            delta,
            k,
            carry,
        )[j] == #[trigger] track[j] by {
            assert(written[j] == track[j]);
        }
    }
}

fn step_of(delta: u8, length: usize) -> (r: u8)
    requires
        1 <= length <= 256,
    ensures
        r == ramp_step(delta, length as int),
{
    if delta < 128 {
        (delta as usize / length) as u8
    } else {
        sub8(0, ((256 - delta as usize) / length) as u8)
    }
}

fn correct(value: u8, delta: u8) -> (r: u8)
    ensures
        r == corrected(value, delta),
{
    if delta < 128 {
        if value != 0 {
            add8(value, 1)
        } else {
            value
        }
    } else {
        sub8(value, 1)
    }
}

/// Lays a ramp of `length` frames from frame `start` that distributes the
/// signed difference `delta` over them.
pub fn ramp(track: &mut Vec<u8>, start: usize, length: usize, delta: u8)
    requires
        1 <= length <= 256,
        start + length <= old(track).len(),
    ensures
        final(track)@ == ramped(old(track)@, start as int, length as int, delta),
        final(track).len() == old(track).len(),
{
    let step = step_of(delta, length);
    let magnitude: usize = if delta < 128 {
        delta as usize
    } else {
        256 - delta as usize
    };
    let remainder = magnitude % length;
    let ghost goal = ramped(track@, start as int, length as int, delta);
    let mut carry: usize = 0;
    let mut k: usize = 1;
    while k < length
        invariant
            1 <= k,
            1 <= length <= 256,
            start + length <= track.len(),
            track.len() == old(track).len(),
            carry < length,
            remainder == ramp_remainder(delta, length as int),
            remainder < length,
            step == ramp_step(delta, length as int),
            ramped_from(track@, start as int, length as int, delta, k as int, carry as int)
                == goal,
        decreases length - k,
    {
        let mut value = add8(track[start + k - 1], step);
        carry += remainder;
        if carry >= length {
            carry -= length;
            value = correct(value, delta);
        }
        track[start + k] = value;
        k += 1;
    }
}

/// Whether a boundary with these two blend lengths is blended at all: the
/// lengths less two, as a byte, must not be negative.
pub open spec fn blend_enabled(out_len: u8, in_len: u8) -> bool {
    wrap_sub(wrap_add(out_len, in_len), 2) < 128
}

/// The blend lengths of the boundary between phoneme `a` and phoneme `b`, as
/// the pair of the length before the boundary and the length after it.
///
/// With equal ranks each phoneme gives its own out length. Otherwise the
/// phoneme of higher rank gives both lengths: `a` its out and in length, `b`
/// its in and out length.
pub open spec fn blend_lengths(a: u8, b: u8) -> (u8, u8) {
    let rank_a = entry(BLEND_RANK, a as int);
    let rank_b = entry(BLEND_RANK, b as int);
    if rank_a == rank_b {
        (entry(OUT_BLEND_LENGTH, a as int), entry(OUT_BLEND_LENGTH, b as int))
    } else if rank_a > rank_b {
        (entry(OUT_BLEND_LENGTH, a as int), entry(IN_BLEND_LENGTH, a as int))
    } else {
        (entry(IN_BLEND_LENGTH, b as int), entry(OUT_BLEND_LENGTH, b as int))
    }
}

/// Whether the window that reaches `out_len` frames back and `in_len` frames
/// forward from frame `sum` lies on a track of `total` frames, its far end
/// included.
pub open spec fn window_legal(total: int, sum: int, out_len: int, in_len: int) -> bool {
    0 <= out_len <= sum && 0 <= in_len && sum + in_len < total && out_len + in_len >= 1
}

/// One track blended around the boundary at frame `sum`: a ramp from the
/// frame `out_len` before the boundary towards the frame `in_len` after it.
/// A window that leaves the track is not blended.
pub open spec fn blended_track(track: Seq<u8>, sum: int, out_len: int, in_len: int) -> Seq<u8> {
    if window_legal(track.len() as int, sum, out_len, in_len) {
        ramped(
            track,
            sum - out_len,
            out_len + in_len,
            wrap_sub(track[sum + in_len], track[sum - out_len]),
        )
    } else {
        track
    }
}

/// Whether the pitch ramp of a boundary lies on a track of `total` frames:
/// both centres and every frame of the ramp.
pub open spec fn pitch_window_legal(
    total: int,
    sum: int,
    out_len: int,
    half_a: int,
    half_b: int,
) -> bool {
    &&& 0 <= out_len <= sum
    &&& 0 <= half_a <= sum
    &&& 0 <= half_b
    &&& sum + half_b < total
    &&& half_a + half_b >= 1
    &&& sum - out_len + half_a + half_b <= total
}

/// The pitch track blended around the boundary at frame `sum`: the difference
/// between the centre of the phoneme after the boundary and the centre of the
/// phoneme before it, laid as a ramp over as many frames as the two half
/// durations, from the frame `out_len` before the boundary.
pub open spec fn blended_pitch(
    pitches: Seq<u8>,
    sum: int,
    out_len: int,
    half_a: int,
    half_b: int,
) -> Seq<u8> {
    if pitch_window_legal(pitches.len() as int, sum, out_len, half_a, half_b) {
        ramped(
            pitches,
            sum - out_len,
            half_a + half_b,
            wrap_sub(pitches[sum + half_b], pitches[sum - half_a]),
        )
    } else {
        pitches
    }
}

/// The track blended around the boundary between the phonemes `k` and `k + 1`.
pub open spec fn boundary_blended(f: FrameSeq, s: PhonemeSeq, k: int) -> FrameSeq {
    let sum = total_frames(s.lengths, k + 1);
    let lens = blend_lengths(s.id_at(k), s.id_at(k + 1));
    let out_len = lens.0 as int;
    let in_len = lens.1 as int;
    if blend_enabled(lens.0, lens.1) {
        FrameSeq {
            pitches: blended_pitch(
                f.pitches,
                sum,
                out_len,
                s.length_at(k) as int / 2,
                s.length_at(k + 1) as int / 2,
            ),
            frequency1: blended_track(f.frequency1, sum, out_len, in_len),
            frequency2: blended_track(f.frequency2, sum, out_len, in_len),
            frequency3: blended_track(f.frequency3, sum, out_len, in_len),
            amplitude1: blended_track(f.amplitude1, sum, out_len, in_len),
            amplitude2: blended_track(f.amplitude2, sum, out_len, in_len),
            amplitude3: blended_track(f.amplitude3, sum, out_len, in_len),
            sampled_consonant_flag: f.sampled_consonant_flag,
        }
    } else {
        f
    }
}

/// The track with its first `k` boundaries blended, in order.
pub open spec fn blended(f: FrameSeq, s: PhonemeSeq, k: int) -> FrameSeq
    decreases k,
{
    if k <= 0 || k >= s.ids.len() {
        f
    } else {
        boundary_blended(blended(f, s, k - 1), s, k - 1)
    }
}

/// A blend stays on its track: it keeps the length of the track, it changes
/// no frame but those strictly between the two ends of its window, and where
/// it changes anything both ends of the window are frames of the track.
pub proof fn lemma_blend_stays_on_track(track: Seq<u8>, sum: int, out_len: int, in_len: int)
    ensures
        blended_track(track, sum, out_len, in_len).len() == track.len(),
        forall|j: int|
            0 <= j < track.len() && !(sum - out_len < j < sum + in_len) ==> blended_track(
                track,
                sum,
                out_len,
                in_len,
            )[j] == #[trigger] track[j],
        blended_track(track, sum, out_len, in_len) != track ==> 0 <= sum - out_len < sum + in_len
            < track.len(),
{
    if window_legal(track.len() as int, sum, out_len, in_len) {
        lemma_ramped_from_frame(
            track,
            sum - out_len,
            out_len + in_len,
            wrap_sub(track[sum + in_len], track[sum - out_len]),
            1,
            0,
        );
    }
}

/// The blend of the pitch stays on its track: it keeps the length of the
/// track, it changes no frame but those of its ramp, and where it changes
/// anything both centres and the whole ramp are frames of the track.
pub proof fn lemma_pitch_blend_stays_on_track(
    pitches: Seq<u8>,
    sum: int,
    out_len: int,
    half_a: int,
    half_b: int,
)
    ensures
        blended_pitch(pitches, sum, out_len, half_a, half_b).len() == pitches.len(),
        forall|j: int|
            0 <= j < pitches.len() && !(sum - out_len < j < sum - out_len + half_a + half_b)
                ==> blended_pitch(pitches, sum, out_len, half_a, half_b)[j]
                == #[trigger] pitches[j],
        blended_pitch(pitches, sum, out_len, half_a, half_b) != pitches ==> 0 <= sum - out_len
            && sum - out_len + half_a + half_b <= pitches.len() && 0 <= sum - half_a && sum
            + half_b < pitches.len(),
{
    if pitch_window_legal(pitches.len() as int, sum, out_len, half_a, half_b) {
        lemma_ramped_from_frame(
            pitches,
            sum - out_len,
            half_a + half_b,
            wrap_sub(pitches[sum + half_b], pitches[sum - half_a]),
            1,
            0,
        );
    }
}

fn blend_lengths_of(a: u8, b: u8) -> (r: (u8, u8))
    ensures
        r == blend_lengths(a, b),
{
    let rank_a = lookup(&BLEND_RANK, a as usize);
    let rank_b = lookup(&BLEND_RANK, b as usize);
    if rank_a == rank_b {
        (lookup(&OUT_BLEND_LENGTH, a as usize), lookup(&OUT_BLEND_LENGTH, b as usize))
    } else if rank_a > rank_b {
        (lookup(&OUT_BLEND_LENGTH, a as usize), lookup(&IN_BLEND_LENGTH, a as usize))
    } else {
        (lookup(&IN_BLEND_LENGTH, b as usize), lookup(&OUT_BLEND_LENGTH, b as usize))
    }
}

/// The window of a boundary at frame `sum` on a track of `total` frames, as
/// its first and its last frame, where the boundary is blended.
///
/// Every window handed out lies on the track: `0 <= first < last < total`.
pub fn blend_window(total: usize, sum: usize, out_len: u8, in_len: u8) -> (r: Option<
    (usize, usize),
>)
    requires
        total <= MAX_FRAMES,
        sum <= total,
    ensures
        r.is_some() <==> blend_enabled(out_len, in_len) && window_legal(
            total as int,
            sum as int,
            out_len as int,
            in_len as int,
        ),
        r.is_some() ==> r.unwrap().0 == sum - out_len && r.unwrap().1 == sum + in_len && 0
            <= r.unwrap().0 < r.unwrap().1 < total,
{
    if sub8(add8(out_len, in_len), 2) < 128 && out_len as usize <= sum && sum + (in_len as usize)
        < total {
        Some((sum - out_len as usize, sum + in_len as usize))
    } else {
        None
    }
}

fn blend_track(track: &mut Vec<u8>, sum: usize, out_len: u8, in_len: u8)
    requires
        old(track).len() <= MAX_FRAMES,
        sum <= old(track).len(),
        blend_enabled(out_len, in_len),
    ensures
        final(track)@ == blended_track(old(track)@, sum as int, out_len as int, in_len as int),
        final(track).len() == old(track).len(),
{
    match blend_window(track.len(), sum, out_len, in_len) {
        Some((first, last)) => {
            let delta = sub8(track[last], track[first]);
            ramp(track, first, last - first, delta);
        },
        None => {},
    }
}

fn blend_pitch(pitches: &mut Vec<u8>, sum: usize, out_len: u8, half_a: u8, half_b: u8)
    requires
        old(pitches).len() <= MAX_FRAMES,
        sum <= old(pitches).len(),
        half_a <= 127,
        half_b <= 127,
    ensures
        final(pitches)@ == blended_pitch(
            old(pitches)@,
            sum as int,
            out_len as int,
            half_a as int,
            half_b as int,
        ),
        final(pitches).len() == old(pitches).len(),
{
    let total = pitches.len();
    let length = half_a as usize + half_b as usize;
    if out_len as usize <= sum && half_a as usize <= sum && sum + (half_b as usize) < total
        && length >= 1 && sum - out_len as usize + length <= total {
        let delta = sub8(pitches[sum + half_b as usize], pitches[sum - half_a as usize]);
        ramp(pitches, sum - out_len as usize, length, delta);
    }
}

/// Blends the track around every boundary between two phonemes, from the
/// first boundary to the last.
pub fn blend_boundaries(frames: &mut FramesTables, phonemes: &Phonemes)
    requires
        phonemes.wf(),
        old(frames).wf(),
        old(frames)@.len() == total_frames(phonemes@.lengths, phonemes@.len() as int),
    ensures
        final(frames)@ == blended(old(frames)@, phonemes@, phonemes@.len() - 1),
        final(frames).wf(),
        final(frames)@.len() == old(frames)@.len(),
{
    let n = phonemes.len();
    if n < 2 {
        return ;
    }
    let mut sum: usize = 0;
    let mut k: usize = 0;
    while k < n - 1
        invariant
            phonemes.wf(),
            2 <= n == phonemes@.len(),
            k <= n - 1,
            frames.wf(),
            frames@.len() == old(frames)@.len(),
            frames@.len() == total_frames(phonemes@.lengths, n as int),
            sum == total_frames(phonemes@.lengths, k as int),
            frames@ == blended(old(frames)@, phonemes@, k as int),
        decreases n - k,
    {
        proof {
            lemma_total_frames_monotonic(phonemes@.lengths, k as int + 1, n as int);
        }
        sum += phonemes.length_at(k) as usize;
        let (out_len, in_len) = blend_lengths_of(phonemes.id_at(k), phonemes.id_at(k + 1));
        if sub8(add8(out_len, in_len), 2) < 128 {
            let half_a = phonemes.length_at(k) / 2;
            let half_b = phonemes.length_at(k + 1) / 2;
            blend_pitch(&mut frames.pitches, sum, out_len, half_a, half_b);
            blend_track(&mut frames.frequency1, sum, out_len, in_len);
            blend_track(&mut frames.frequency2, sum, out_len, in_len);
            blend_track(&mut frames.frequency3, sum, out_len, in_len);
            blend_track(&mut frames.amplitude1, sum, out_len, in_len);
            blend_track(&mut frames.amplitude2, sum, out_len, in_len);
            blend_track(&mut frames.amplitude3, sum, out_len, in_len);
        }
        k += 1;
    }
}

/// The loudness code of a raw amplitude code; a code that the table does not
/// hold is silent.
pub open spec fn rescaled(code: u8) -> u8 {
    entry(AMPLITUDE_RESCALE, code as int)
}

/// The pitch track lowered, frame by frame, by half the first formant
/// frequency.
pub open spec fn contoured(pitches: Seq<u8>, frequency1: Seq<u8>) -> Seq<u8> {
    Seq::new(pitches.len(), |i: int| wrap_sub(pitches[i], frequency1[i] / 2))
}

/// An amplitude track turned into loudness codes.
pub open spec fn loudness(track: Seq<u8>) -> Seq<u8> {
    Seq::new(track.len(), |i: int| rescaled(track[i]))
}

/// The track after the closing pass: outside sing mode the pitch contour is
/// lowered by the first formant, and the three amplitudes become loudness
/// codes in either mode.
pub open spec fn finished(f: FrameSeq, singmode: bool) -> FrameSeq {
    FrameSeq {
        pitches: if singmode {
            f.pitches
        } else {
            contoured(f.pitches, f.frequency1)
        },
        amplitude1: loudness(f.amplitude1),
        amplitude2: loudness(f.amplitude2),
        amplitude3: loudness(f.amplitude3),
        ..f
    }
}

/// The frame track of a phoneme sequence under a voice: expanded, blended and
/// finished.
pub open spec fn frames_of(
    s: PhonemeSeq,
    pitch: u8,
    mouth: Seq<u8>,
    throat: Seq<u8>,
    singmode: bool,
) -> FrameSeq {
    finished(
        blended(expanded(s, pitch, mouth, throat, s.len() as int), s, s.len() - 1),
        singmode,
    )
}

/// Every loudness code fits in four bits.
pub proof fn lemma_rescaled_range(code: u8)
    ensures
        rescaled(code) <= 15,
{
    if code < 17 {
        assert(AMPLITUDE_RESCALE[code as int] <= 15);
    }
}

/// After the closing pass every amplitude of the track lies between 0 and 15,
/// whatever raw codes the track held.
pub proof fn lemma_finished_amplitudes(f: FrameSeq, singmode: bool)
    ensures
        forall|i: int|
            0 <= i < f.amplitude1.len() ==> #[trigger] finished(f, singmode).amplitude1[i] <= 15,
        forall|i: int|
            0 <= i < f.amplitude2.len() ==> #[trigger] finished(f, singmode).amplitude2[i] <= 15,
        forall|i: int|
            0 <= i < f.amplitude3.len() ==> #[trigger] finished(f, singmode).amplitude3[i] <= 15,
{
    assert forall|i: int| 0 <= i < f.amplitude1.len() implies #[trigger] finished(
        f,
        singmode,
    ).amplitude1[i] <= 15 by {
        lemma_rescaled_range(f.amplitude1[i]);
    }
    assert forall|i: int| 0 <= i < f.amplitude2.len() implies #[trigger] finished(
        f,
        singmode,
    ).amplitude2[i] <= 15 by {
        lemma_rescaled_range(f.amplitude2[i]);
    }
    assert forall|i: int| 0 <= i < f.amplitude3.len() implies #[trigger] finished(
        f,
        singmode,
    ).amplitude3[i] <= 15 by {
        lemma_rescaled_range(f.amplitude3[i]);
    }
}

/// Sing mode changes the pitch track and nothing else: the frequencies, the
/// amplitudes and the consonant selectors of the sung and the spoken track
/// are the same, and each spoken pitch is the sung pitch less half the first
/// formant frequency of its frame.
pub proof fn lemma_sing_mode_changes_pitch_only(
    s: PhonemeSeq,
    pitch: u8,
    mouth: Seq<u8>,
    throat: Seq<u8>,
)
    ensures
        ({
            let sung = frames_of(s, pitch, mouth, throat, true);
            let spoken = frames_of(s, pitch, mouth, throat, false);
            &&& spoken.frequency1 == sung.frequency1
            &&& spoken.frequency2 == sung.frequency2
            &&& spoken.frequency3 == sung.frequency3
            &&& spoken.amplitude1 == sung.amplitude1
            &&& spoken.amplitude2 == sung.amplitude2
            &&& spoken.amplitude3 == sung.amplitude3
            &&& spoken.sampled_consonant_flag == sung.sampled_consonant_flag
            &&& spoken.pitches.len() == sung.pitches.len()
            &&& forall|i: int|
                0 <= i < sung.pitches.len() ==> #[trigger] spoken.pitches[i] == wrap_sub(
                    sung.pitches[i],
                    sung.frequency1[i] / 2,
                )
        }),
{
}

/// Blending keeps the eight sequences of a track parallel and as long as they
/// were.
pub proof fn lemma_blended_len(f: FrameSeq, s: PhonemeSeq, k: int)
    requires
        f.parallel(),
    ensures
        blended(f, s, k).parallel(),
        blended(f, s, k).len() == f.len(),
    decreases k,
{
    if !(k <= 0 || k >= s.ids.len()) {
        lemma_blended_len(f, s, k - 1);
        let g = blended(f, s, k - 1);
        let sum = total_frames(s.lengths, k);
        let lens = blend_lengths(s.id_at(k - 1), s.id_at(k));
        let out_len = lens.0 as int;
        let in_len = lens.1 as int;
        let half_a = s.length_at(k - 1) as int / 2;
        let half_b = s.length_at(k) as int / 2;
        lemma_pitch_blend_stays_on_track(g.pitches, sum, out_len, half_a, half_b);
        lemma_blend_stays_on_track(g.frequency1, sum, out_len, in_len);
        lemma_blend_stays_on_track(g.frequency2, sum, out_len, in_len);
        lemma_blend_stays_on_track(g.frequency3, sum, out_len, in_len);
        lemma_blend_stays_on_track(g.amplitude1, sum, out_len, in_len);
        lemma_blend_stays_on_track(g.amplitude2, sum, out_len, in_len);
        lemma_blend_stays_on_track(g.amplitude3, sum, out_len, in_len);
    }
}

/// The frame track of a phoneme sequence holds one frame for each unit of
/// duration, in each of its eight sequences.
pub proof fn lemma_frames_of_len(
    s: PhonemeSeq,
    pitch: u8,
    mouth: Seq<u8>,
    throat: Seq<u8>,
    singmode: bool,
)
    requires
        s.wf(),
    ensures
        frames_of(s, pitch, mouth, throat, singmode).parallel(),
        frames_of(s, pitch, mouth, throat, singmode).len() == total_frames(
            s.lengths,
            s.len() as int,
        ),
{
    lemma_expanded_len(s, pitch, mouth, throat, s.len() as int);
    lemma_blended_len(expanded(s, pitch, mouth, throat, s.len() as int), s, s.len() - 1);
}

fn rescale_track(track: &mut Vec<u8>)
    ensures
        final(track)@ == loudness(old(track)@),
{
    let n = track.len();
    let mut i: usize = 0;
    while i < n
        invariant
            i <= n == track.len() == old(track).len(),
            forall|j: int| 0 <= j < i ==> track[j] == rescaled(old(track)[j]),
            forall|j: int| i <= j < n ==> track[j] == old(track)[j],
        decreases n - i,
    {
        track[i] = lookup(&AMPLITUDE_RESCALE, track[i] as usize);
        i += 1;
    }
    assert(track@ =~= loudness(old(track)@));
}

/// The closing pass over a track: lowers the pitch contour by half the first
/// formant frequency unless sing mode is on, and turns the raw amplitude
/// codes into loudness codes.
pub fn finish(frames: &mut FramesTables, singmode: bool)
    requires
        old(frames).wf(),
    ensures
        final(frames)@ == finished(old(frames)@, singmode),
        final(frames).wf(),
        forall|i: int| 0 <= i < final(frames)@.len() ==> final(frames)@.amplitude1[i] <= 15,
        forall|i: int| 0 <= i < final(frames)@.len() ==> final(frames)@.amplitude2[i] <= 15,
        forall|i: int| 0 <= i < final(frames)@.len() ==> final(frames)@.amplitude3[i] <= 15,
{
    proof {
        lemma_finished_amplitudes(frames@, singmode);
    }
    if !singmode {
        let n = frames.pitches.len();
        let mut i: usize = 0;
        while i < n
            invariant
                i <= n == frames.pitches.len() == old(frames).pitches.len(),
                frames@ == (FrameSeq { pitches: frames@.pitches, ..old(frames)@ }),
                frames.frequency1.len() == n,
                forall|j: int|
                    0 <= j < i ==> frames.pitches[j] == wrap_sub(
                        old(frames).pitches[j],
                        old(frames).frequency1[j] / 2,
                    ),
                forall|j: int| i <= j < n ==> frames.pitches[j] == old(frames).pitches[j],
            decreases n - i,
        {
            frames.pitches[i] = sub8(frames.pitches[i], frames.frequency1[i] / 2);
            i += 1;
        }
        assert(frames@.pitches =~= contoured(old(frames)@.pitches, old(frames)@.frequency1));
    }
    rescale_track(&mut frames.amplitude1);
    rescale_track(&mut frames.amplitude2);
    rescale_track(&mut frames.amplitude3);
}

/// Builds the frame track of a phoneme buffer under a voice.
///
/// The track holds one frame for each unit of duration, and each of its
/// amplitudes is a loudness code between 0 and 15. Fails where the durations
/// add up to more than the track holds.
pub fn mk_frames(params: &Params, phonemes: &Phonemes, formants: &FormantTables) -> (r: Result<
    FramesTables,
    SynthError,
>)
    requires
        phonemes.wf(),
    ensures
        r is Ok ==> r->Ok_0@.len() == total_frames(phonemes@.lengths, phonemes@.len() as int),
        r is Ok ==> forall|i: int|
            0 <= i < r->Ok_0@.len() ==> r->Ok_0@.amplitude1[i] <= 15 && r->Ok_0@.amplitude2[i]
                <= 15 && r->Ok_0@.amplitude3[i] <= 15,
        total_frames(phonemes@.lengths, phonemes@.len() as int) <= MAX_FRAMES ==> r.is_ok()
            && r.unwrap()@ == frames_of(
            phonemes@,
            params.pitch,
            formants.mouth@,
            formants.throat@,
            params.singmode,
        ) && r.unwrap().wf(),
        total_frames(phonemes@.lengths, phonemes@.len() as int) > MAX_FRAMES ==> r == Err::<
            FramesTables,
            SynthError,
        >(SynthError::CapacityExceeded),
{
    match expand_phonemes(params, phonemes, formants) {
        Ok(mut frames) => {
            proof {
                lemma_expanded_len(
                    phonemes@,
                    params.pitch,
                    formants.mouth@,
                    formants.throat@,
                    phonemes@.len() as int,
                );
            }
            blend_boundaries(&mut frames, phonemes);
            finish(&mut frames, params.singmode);
            Ok(frames)
        },
        Err(e) => Err(e),
    }
}

} // verus!
