//! The frame track: expansion of phonemes into frames, pitch inflection,
//! blending across phoneme boundaries, and the final pitch and loudness pass.

use vstd::prelude::*;
use crate::bytes::{add8, wrap_add};
use crate::formants::{FormantTables, Params};
use crate::phonemes::{PhonemeSeq, Phonemes, SynthError};
use crate::tables::{
    entry, lookup, value_at, AMPLITUDE1, AMPLITUDE2, AMPLITUDE3, FREQ3, PITCH_OFFSETS,
    SAMPLED_CONSONANT_FLAGS,
};

verus! {

/// Largest number of frames a track holds.
pub const MAX_FRAMES: usize = 256;

/// Pitch value that an inflection leaves alone while it looks for its start.
pub const HOLD_PITCH: u8 = 127;

/// The parameters of one frame.
#[derive(Clone, Copy, Debug, PartialEq, Eq, Structural)]
pub struct FrameRow {
    pub pitch: u8,
    pub frequency1: u8,
    pub frequency2: u8,
    pub frequency3: u8,
    pub amplitude1: u8,
    pub amplitude2: u8,
    pub amplitude3: u8,
    pub sampled_consonant_flag: u8,
}

/// Mathematical model of a frame track: eight parallel sequences.
pub struct FrameSeq {
    pub pitches: Seq<u8>,
    pub frequency1: Seq<u8>,
    pub frequency2: Seq<u8>,
    pub frequency3: Seq<u8>,
    pub amplitude1: Seq<u8>,
    pub amplitude2: Seq<u8>,
    pub amplitude3: Seq<u8>,
    pub sampled_consonant_flag: Seq<u8>,
}

impl FrameSeq {
    pub open spec fn len(self) -> nat {
        self.pitches.len()
    }

    /// The eight sequences have one length.
    pub open spec fn parallel(self) -> bool {
        &&& self.frequency1.len() == self.pitches.len()
        &&& self.frequency2.len() == self.pitches.len()
        &&& self.frequency3.len() == self.pitches.len()
        &&& self.amplitude1.len() == self.pitches.len()
        &&& self.amplitude2.len() == self.pitches.len()
        &&& self.amplitude3.len() == self.pitches.len()
        &&& self.sampled_consonant_flag.len() == self.pitches.len()
    }

    /// The eight sequences run in parallel within the capacity.
    pub open spec fn wf(self) -> bool {
        self.parallel() && self.pitches.len() <= MAX_FRAMES
    }

    pub open spec fn empty() -> FrameSeq {
        FrameSeq {
            pitches: Seq::empty(),
            frequency1: Seq::empty(),
            frequency2: Seq::empty(),
            frequency3: Seq::empty(),
            amplitude1: Seq::empty(),
            amplitude2: Seq::empty(),
            amplitude3: Seq::empty(),
            sampled_consonant_flag: Seq::empty(),
        }
    }

    /// The track with one frame added at its end.
    pub open spec fn pushed(self, row: FrameRow) -> FrameSeq {
        FrameSeq {
            pitches: self.pitches.push(row.pitch),
            frequency1: self.frequency1.push(row.frequency1),
            frequency2: self.frequency2.push(row.frequency2),
            frequency3: self.frequency3.push(row.frequency3),
            amplitude1: self.amplitude1.push(row.amplitude1),
            amplitude2: self.amplitude2.push(row.amplitude2),
            amplitude3: self.amplitude3.push(row.amplitude3),
            sampled_consonant_flag: self.sampled_consonant_flag.push(row.sampled_consonant_flag),
        }
    }

    /// The track with `count` copies of one frame added at its end.
    pub open spec fn extended(self, row: FrameRow, count: nat) -> FrameSeq
        decreases count,
    {
        if count == 0 {
            self
        } else {
            self.extended(row, (count - 1) as nat).pushed(row)
        }
    }
}

/// A frame track of fixed capacity.
pub struct FramesTables {
    pub pitches: Vec<u8>,
    pub frequency1: Vec<u8>,
    pub frequency2: Vec<u8>,
    pub frequency3: Vec<u8>,
    pub amplitude1: Vec<u8>,
    pub amplitude2: Vec<u8>,
    pub amplitude3: Vec<u8>,
    pub sampled_consonant_flag: Vec<u8>,
}

impl View for FramesTables {
    type V = FrameSeq;

    open spec fn view(&self) -> FrameSeq {
        FrameSeq {
            pitches: self.pitches@,
            frequency1: self.frequency1@,
            frequency2: self.frequency2@,
            frequency3: self.frequency3@,
            amplitude1: self.amplitude1@,
            amplitude2: self.amplitude2@,
            amplitude3: self.amplitude3@,
            sampled_consonant_flag: self.sampled_consonant_flag@,
        }
    }
}

impl FramesTables {
    pub open spec fn wf(&self) -> bool {
        self@.wf()
    }

    /// A track without frames.
    pub fn new() -> (r: Self)
        ensures
            r@ == FrameSeq::empty(),
            r.wf(),
    {
        FramesTables {
            pitches: Vec::new(),
            frequency1: Vec::new(),
            frequency2: Vec::new(),
            frequency3: Vec::new(),
            amplitude1: Vec::new(),
            amplitude2: Vec::new(),
            amplitude3: Vec::new(),
            sampled_consonant_flag: Vec::new(),
        }
    }

    /// Tests whether the eight fields run in parallel within the capacity.
    pub fn is_well_formed(&self) -> (r: bool)
        ensures
            r == self.wf(),
    {
        let n = self.pitches.len();
        n <= MAX_FRAMES && self.frequency1.len() == n && self.frequency2.len() == n
            && self.frequency3.len() == n && self.amplitude1.len() == n && self.amplitude2.len()
            == n && self.amplitude3.len() == n && self.sampled_consonant_flag.len() == n
    }

    /// Number of frames.
    pub fn len(&self) -> (r: usize)
        ensures
            r == self@.len(),
    {
        self.pitches.len()
    }

    fn push_row(&mut self, row: FrameRow)
        ensures
            final(self)@ == old(self)@.pushed(row),
    {
        self.pitches.push(row.pitch);
        self.frequency1.push(row.frequency1);
        self.frequency2.push(row.frequency2);
        self.frequency3.push(row.frequency3);
        self.amplitude1.push(row.amplitude1);
        self.amplitude2.push(row.amplitude2);
        self.amplitude3.push(row.amplitude3);
        self.sampled_consonant_flag.push(row.sampled_consonant_flag);
    }
}

/// The first position from `i` on, before `end`, whose pitch is not `skip`;
/// `end` where there is none.
pub open spec fn first_other(pitches: Seq<u8>, i: int, end: int, skip: u8) -> int
    decreases end - i,
{
    if 0 <= i < end <= pitches.len() && pitches[i] == skip {
        first_other(pitches, i + 1, end, skip)
    } else {
        i
    }
}

/// The pitch track after a glide over the frames from `i` up to `end`: each
/// frame that does not hold 255 receives the running pitch plus `direction`,
/// which becomes the running pitch; a frame that holds 255 is passed over.
pub open spec fn glided(pitches: Seq<u8>, i: int, end: int, pitch: u8, direction: u8) -> Seq<u8>
    decreases end - i,
{
    if 0 <= i < end <= pitches.len() {
        if pitches[i] == 255 {
            glided(pitches, i + 1, end, pitch, direction)
        } else {
            let next_pitch = wrap_add(pitch, direction);
            glided(pitches.update(i, next_pitch), i + 1, end, next_pitch, direction)
        }
    } else {
        pitches
    }
}

/// The pitch track after an inflection that ends before frame `end`. The glide
/// starts at the first frame, at most 30 before `end`, that does not hold
/// pitch 127; that frame is raised by `direction` whatever it holds. Where
/// there is no such frame the track stays as it is.
pub open spec fn inflected(pitches: Seq<u8>, end: int, direction: u8) -> Seq<u8> {
    if 0 <= end <= pitches.len() {
        let from = if end >= 30 {
            end - 30
        } else {
            0
        };
        let start = first_other(pitches, from, end, HOLD_PITCH);
        if start < end {
            let first = wrap_add(pitches[start], direction);
            glided(pitches.update(start, first), start + 1, end, first, direction)
        } else {
            pitches
        }
    } else {
        pitches
    }
}

proof fn lemma_first_other_bounds(pitches: Seq<u8>, i: int, end: int, skip: u8)
    requires
        0 <= i <= end <= pitches.len(),
    ensures
        i <= first_other(pitches, i, end, skip) <= end,
    decreases end - i,
{
    if i < end && pitches[i] == skip {
        lemma_first_other_bounds(pitches, i + 1, end, skip);
    }
}

proof fn lemma_glided_len(pitches: Seq<u8>, i: int, end: int, pitch: u8, direction: u8)
    ensures
        glided(pitches, i, end, pitch, direction).len() == pitches.len(),
    decreases end - i,
{
    if 0 <= i < end <= pitches.len() {
        if pitches[i] == 255 {
            lemma_glided_len(pitches, i + 1, end, pitch, direction);
        } else {
            let next_pitch = wrap_add(pitch, direction);
            lemma_glided_len(pitches.update(i, next_pitch), i + 1, end, next_pitch, direction);
        }
    }
}

/// An inflection keeps the number of frames.
pub proof fn lemma_inflected_len(pitches: Seq<u8>, end: int, direction: u8)
    ensures
        inflected(pitches, end, direction).len() == pitches.len(),
{
    if 0 <= end <= pitches.len() {
        let from = if end >= 30 {
            end - 30
        } else {
            0
        };
        let start = first_other(pitches, from, end, HOLD_PITCH);
        lemma_first_other_bounds(pitches, from, end, HOLD_PITCH);
        if start < end {
            let first = wrap_add(pitches[start], direction);
            lemma_glided_len(pitches.update(start, first), start + 1, end, first, direction);
        }
    }
}

fn skip_pitch(pitches: &Vec<u8>, i: usize, end: usize, skip: u8) -> (r: usize)
    requires
        i <= end <= pitches.len(),
    ensures
        r == first_other(pitches@, i as int, end as int, skip),
        i <= r <= end,
{
    let mut j = i;
    while j < end && pitches[j] == skip
        invariant
            i <= j <= end <= pitches.len(),
            first_other(pitches@, j as int, end as int, skip) == first_other(
                pitches@,
                i as int,
                end as int,
                skip,
            ),
        decreases end - j,
    {
        j += 1;
    }
    j
}

/// Bends the pitch of the frames before `frame_idx` into a glide: falling for
/// direction 1, rising for direction 255.
///
/// Only the pitch track changes. A `frame_idx` behind the last frame leaves
/// the track as it was.
pub fn add_inflection(frame_idx: usize, frames: &mut FramesTables, inflection_direction: u8)
    ensures
        final(frames)@ == (FrameSeq {
            pitches: inflected(old(frames)@.pitches, frame_idx as int, inflection_direction),
            ..old(frames)@
        }),
        final(frames)@.pitches.len() == old(frames)@.pitches.len(),
{
    proof {
        lemma_inflected_len(frames@.pitches, frame_idx as int, inflection_direction);
    }
    if frame_idx > frames.pitches.len() {
        return ;
    }
    let from: usize = if frame_idx >= 30 {
        frame_idx - 30
    } else {
        0
    };
    let start = skip_pitch(&frames.pitches, from, frame_idx, HOLD_PITCH);
    if start >= frame_idx {
        return ;
    }
    let ghost before = frames@.pitches;
    let ghost goal = inflected(before, frame_idx as int, inflection_direction);
    let mut pitch = add8(frames.pitches[start], inflection_direction);
    frames.pitches[start] = pitch;
    let mut idx = start + 1;
    while idx < frame_idx
        invariant
            start < idx <= frame_idx <= frames.pitches.len(),
            frames.pitches.len() == before.len(),
            glided(frames@.pitches, idx as int, frame_idx as int, pitch, inflection_direction)
                == goal,
            frames@ == (FrameSeq { pitches: frames@.pitches, ..old(frames)@ }),
        decreases frame_idx - idx,
    {
        if frames.pitches[idx] != 255 {
            pitch = add8(pitch, inflection_direction);
            frames.pitches[idx] = pitch;
        }
        idx += 1;
    }
}

/// The number of frames that the first `k` durations add up to.
pub open spec fn total_frames(lengths: Seq<u8>, k: int) -> int
    decreases k,
{
    if k <= 0 || k > lengths.len() {
        0
    } else {
        total_frames(lengths, k - 1) + lengths[k - 1] as int
    }
}

/// The frame that a phoneme is copied into for each unit of its duration.
pub open spec fn row_of(id: u8, stress: u8, pitch: u8, mouth: Seq<u8>, throat: Seq<u8>)
    -> FrameRow {
    FrameRow {
        pitch: wrap_add(pitch, entry(PITCH_OFFSETS, stress as int + 1)),
        frequency1: value_at(mouth, id as int),
        frequency2: value_at(throat, id as int),
        frequency3: entry(FREQ3, id as int),
        amplitude1: entry(AMPLITUDE1, id as int),
        amplitude2: entry(AMPLITUDE2, id as int),
        amplitude3: entry(AMPLITUDE3, id as int),
        sampled_consonant_flag: entry(SAMPLED_CONSONANT_FLAGS, id as int),
    }
}

/// The track as it stands before phoneme `id` is expanded: a period bends the
/// pitches before it downwards, a question mark upwards.
pub open spec fn bent(f: FrameSeq, id: u8) -> FrameSeq {
    if id == 1 {
        FrameSeq { pitches: inflected(f.pitches, f.pitches.len() as int, 1), ..f }
    } else if id == 2 {
        FrameSeq { pitches: inflected(f.pitches, f.pitches.len() as int, 255), ..f }
    } else {
        f
    }
}

/// The frame track of the first `k` phonemes: each phoneme in turn bends the
/// track if it is terminal punctuation, then adds one frame for each unit of
/// its duration.
pub open spec fn expanded(s: PhonemeSeq, pitch: u8, mouth: Seq<u8>, throat: Seq<u8>, k: int)
    -> FrameSeq
    decreases k,
{
    if k <= 0 || k > s.ids.len() {
        FrameSeq::empty()
    } else {
        bent(expanded(s, pitch, mouth, throat, k - 1), s.ids[k - 1]).extended(
            row_of(s.ids[k - 1], s.stress_at(k - 1), pitch, mouth, throat),
            s.length_at(k - 1) as nat,
        )
    }
}

proof fn lemma_extended_len(f: FrameSeq, row: FrameRow, count: nat)
    requires
        f.parallel(),
    ensures
        f.extended(row, count).parallel(),
        f.extended(row, count).len() == f.len() + count,
    decreases count,
{
    if count > 0 {
        lemma_extended_len(f, row, (count - 1) as nat);
    }
}

/// The track of the first `k` phonemes holds as many frames as their
/// durations add up to, in each of its eight sequences.
pub proof fn lemma_expanded_len(
    s: PhonemeSeq,
    pitch: u8,
    mouth: Seq<u8>,
    throat: Seq<u8>,
    k: int,
)
    requires
        s.wf(),
        0 <= k <= s.ids.len(),
    ensures
        expanded(s, pitch, mouth, throat, k).parallel(),
        expanded(s, pitch, mouth, throat, k).len() == total_frames(s.lengths, k),
    decreases k,
{
    if k > 0 {
        lemma_expanded_len(s, pitch, mouth, throat, k - 1);
        let before = expanded(s, pitch, mouth, throat, k - 1);
        lemma_inflected_len(before.pitches, before.pitches.len() as int, 1);
        lemma_inflected_len(before.pitches, before.pitches.len() as int, 255);
        lemma_extended_len(
            bent(before, s.ids[k - 1]),
            row_of(s.ids[k - 1], s.stress_at(k - 1), pitch, mouth, throat),
            s.length_at(k - 1) as nat,
        );
    }
}

/// The sum of the first `k` durations grows with `k`.
pub proof fn lemma_total_frames_monotonic(lengths: Seq<u8>, i: int, j: int)
    requires
        0 <= i <= j <= lengths.len(),
    ensures
        0 <= total_frames(lengths, i) <= total_frames(lengths, j) <= 255 * j,
    decreases j,
{
    if i < j {
        lemma_total_frames_monotonic(lengths, i, j - 1);
    } else if j > 0 {
        lemma_total_frames_monotonic(lengths, j - 1, j - 1);
    }
}

/// Adds up all the durations of a phoneme buffer.
pub fn count_frames(phonemes: &Phonemes) -> (r: usize)
    requires
        phonemes.wf(),
    ensures
        r == total_frames(phonemes@.lengths, phonemes@.lengths.len() as int),
{
    let n = phonemes.phoneme_length.len();
    let mut sum: usize = 0;
    let mut k: usize = 0;
    while k < n
        invariant
            k <= n == phonemes.phoneme_length.len() <= 255,
            sum == total_frames(phonemes@.lengths, k as int),
            sum <= 255 * k,
        decreases n - k,
    {
        sum += phonemes.phoneme_length[k] as usize;
        k += 1;
    }
    sum
}

fn make_row(id: u8, stress: u8, pitch: u8, formants: &FormantTables) -> (r: FrameRow)
    ensures
        r == row_of(id, stress, pitch, formants.mouth@, formants.throat@),
{
    FrameRow {
        pitch: add8(pitch, lookup(&PITCH_OFFSETS, stress as usize + 1)),
        frequency1: formants.mouth_of(id),
        frequency2: formants.throat_of(id),
        frequency3: lookup(&FREQ3, id as usize),
        amplitude1: lookup(&AMPLITUDE1, id as usize),
        amplitude2: lookup(&AMPLITUDE2, id as usize),
        amplitude3: lookup(&AMPLITUDE3, id as usize),
        sampled_consonant_flag: lookup(&SAMPLED_CONSONANT_FLAGS, id as usize),
    }
}

/// Expands each phoneme into as many frames as its duration says.
///
/// Fails where the durations add up to more than the track holds.
pub fn expand_phonemes(params: &Params, phonemes: &Phonemes, formants: &FormantTables) -> (r:
    Result<FramesTables, SynthError>)
    requires
        phonemes.wf(),
    ensures
        total_frames(phonemes@.lengths, phonemes@.len() as int) <= MAX_FRAMES ==> r.is_ok()
            && r.unwrap()@ == expanded(
            phonemes@,
            params.pitch,
            formants.mouth@,
            formants.throat@,
            phonemes@.len() as int,
        ) && r.unwrap().wf(),
        total_frames(phonemes@.lengths, phonemes@.len() as int) > MAX_FRAMES ==> r == Err::<
            FramesTables,
            SynthError,
        >(SynthError::CapacityExceeded),
{
    if count_frames(phonemes) > MAX_FRAMES {
        return Err(SynthError::CapacityExceeded);
    }
    let n = phonemes.len();
    let mut frames = FramesTables::new();
    let mut k: usize = 0;
    while k < n
        invariant
            phonemes.wf(),
            k <= n == phonemes@.len(),
            frames@ == expanded(
                phonemes@,
                params.pitch,
                formants.mouth@,
                formants.throat@,
                k as int,
            ),
        decreases n - k,
    {
        let id = phonemes.id_at(k);
        if id == 1 {
            let end = frames.len();
            add_inflection(end, &mut frames, 1);
        } else if id == 2 {
            let end = frames.len();
            add_inflection(end, &mut frames, 255);
        }
        let row = make_row(id, phonemes.stress_at(k), params.pitch, formants);
        let count = phonemes.length_at(k);
        let ghost start = frames@;
        let mut j: u8 = 0;
        while j < count
            invariant
                j <= count,
                frames@ == start.extended(row, j as nat),
            decreases count - j,
        {
            frames.push_row(row);
            j += 1;
        }
        k += 1;
    }
    proof {
        lemma_expanded_len(
            phonemes@,
            params.pitch,
            formants.mouth@,
            formants.throat@,
            n as int,
        );
    }
    Ok(frames)
}

} // verus!
