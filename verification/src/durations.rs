//! Durations: the base duration of each phoneme by its stress, the
//! lengthening before punctuation, and the adjustments by context.

use vstd::prelude::*;
use crate::bytes::{sub8, wrap_sub};
use crate::phonemes::{id_or_end, next_sound, replaced, PhonemeSeq, Phonemes};
use crate::tables::{
    entry, has_flag, has_flag2, lookup, test_flag, test_flag2, CONSONANT, END, FRICATIVE, LIQUID,
    NASAL, PHONEME_LENGTH_TABLE, PHONEME_STRESSED_LENGTH_TABLE, PLOSIVE, PUNCTUATION, STOP,
    VOICED, VOWEL,
};

verus! {

/// The duration of a phoneme by its stress: from the stressed table where the
/// stress is between 1 and 127, from the unstressed table otherwise.
pub open spec fn base_length(id: u8, stress: u8) -> u8 {
    if stress == 0 || stress >= 128 {
        entry(PHONEME_LENGTH_TABLE, id as int)
    } else {
        entry(PHONEME_STRESSED_LENGTH_TABLE, id as int)
    }
}

/// The sequence with every duration set to the base duration of its phoneme.
pub open spec fn with_base_lengths(s: PhonemeSeq) -> PhonemeSeq {
    PhonemeSeq {
        lengths: Seq::new(s.ids.len(), |i: int| base_length(s.ids[i], s.stress_at(i))),
        ..s
    }
}

/// A duration made longer by half of itself and one, as a byte.
pub open spec fn lengthened(length: u8) -> u8 {
    ((length as int / 2 + length as int + 1) % 256) as u8
}

/// A duration made longer by a quarter of itself and one, as a byte.
pub open spec fn quarter_longer(length: u8) -> u8 {
    ((length as int / 4 + length as int + 1) % 256) as u8
}

/// Half a duration and one.
pub open spec fn halved(length: u8) -> u8 {
    (length as int / 2 + 1) as u8
}

/// Whether the lengthening before punctuation applies to a phoneme: to every
/// phoneme that is voiced or no fricative.
pub open spec fn takes_lengthening(id: u8) -> bool {
    id != END && (!has_flag2(id, FRICATIVE) || has_flag(id, VOICED))
}

/// The position that the lengthening before punctuation starts at, found by
/// going back from `j`: the nearest vowel, or the first entry where no vowel
/// stands before `j`.
pub open spec fn phrase_start(ids: Seq<u8>, j: int) -> int
    decreases j,
{
    if 0 < j < ids.len() && ids[j] != END && !has_flag(ids[j], VOWEL) {
        phrase_start(ids, j - 1)
    } else {
        j
    }
}

/// The durations with those from `j` up to `end` lengthened where the
/// lengthening applies to the phoneme.
pub open spec fn lengthened_range(ids: Seq<u8>, lengths: Seq<u8>, j: int, end: int) -> Seq<u8>
    decreases end - j,
{
    if 0 <= j < end <= ids.len() == lengths.len() {
        lengthened_range(
            ids,
            if takes_lengthening(ids[j]) {
                lengths.update(j, lengthened(lengths[j]))
            } else {
                lengths
            },
            j + 1,
            end,
        )
    } else {
        lengths
    }
}

/// The durations after the phoneme at `idx` has been looked at: where it is
/// punctuation, everything from the start of its phrase up to it is lengthened.
pub open spec fn lengthened_before(ids: Seq<u8>, lengths: Seq<u8>, idx: int) -> Seq<u8> {
    if 1 <= idx < ids.len() && has_flag2(ids[idx], PUNCTUATION) {
        lengthened_range(ids, lengths, phrase_start(ids, idx - 1), idx)
    } else {
        lengths
    }
}

/// The durations after every phoneme from `idx` on has been looked at for the
/// lengthening before punctuation, from left to right.
pub open spec fn punctuation_lengthened(ids: Seq<u8>, lengths: Seq<u8>, idx: int) -> Seq<u8>
    decreases ids.len() - idx,
{
    if 0 <= idx < ids.len() {
        punctuation_lengthened(ids, lengthened_before(ids, lengths, idx), idx + 1)
    } else {
        lengths
    }
}

/// The durations after the adjustment by context at `idx`.
///
/// A vowel before `RX` or `LX` and a consonant loses one unit; a vowel before
/// an unvoiced plosive keeps an eighth of its duration; a vowel before any
/// other voiced consonant grows by a quarter and one. A nasal before a stop
/// consonant gets 5 units and the stop 6. A stop consonant whose next sound
/// is a stop consonant is halved, plus one, and so is that sound. A liquid
/// after an unvoiced plosive loses two units.
pub open spec fn adjusted_at(ids: Seq<u8>, lengths: Seq<u8>, idx: int) -> Seq<u8> {
    let id = id_or_end(ids, idx);
    let next = id_or_end(ids, idx + 1);
    if has_flag(id, VOWEL) {
        if !has_flag(next, CONSONANT) {
            if (next == 18 || next == 19) && has_flag(id_or_end(ids, idx + 2), CONSONANT) {
                replaced(lengths, idx, wrap_sub(lengths[idx], 1))
            } else {
                lengths
            }
        } else if !has_flag(next, VOICED) {
            if has_flag(next, PLOSIVE) {
                replaced(lengths, idx, lengths[idx] / 8)
            } else {
                lengths
            }
        } else {
            replaced(lengths, idx, quarter_longer(lengths[idx]))
        }
    } else if has_flag2(id, NASAL) {
        if has_flag(next, STOP) {
            replaced(replaced(lengths, idx + 1, 6), idx, 5)
        } else {
            lengths
        }
    } else if has_flag(id, STOP) {
        let j = next_sound(ids, idx + 1);
        if has_flag(id_or_end(ids, j), STOP) {
            replaced(replaced(lengths, j, halved(lengths[j])), idx, halved(lengths[idx]))
        } else {
            lengths
        }
    } else if has_flag2(id, LIQUID) && has_flag(id_or_end(ids, idx - 1), PLOSIVE) {
        replaced(lengths, idx, wrap_sub(lengths[idx], 2))
    } else {
        lengths
    }
}

/// The durations after the adjustment by context at every position from `idx`
/// on, from left to right.
pub open spec fn adjusted(ids: Seq<u8>, lengths: Seq<u8>, idx: int) -> Seq<u8>
    decreases ids.len() - idx,
{
    if 0 <= idx < ids.len() {
        adjusted(ids, adjusted_at(ids, lengths, idx), idx + 1)
    } else {
        lengths
    }
}

/// The sequence with its durations set: the base durations, then the
/// lengthening before punctuation, then the adjustments by context.
pub open spec fn with_durations(s: PhonemeSeq) -> PhonemeSeq {
    PhonemeSeq {
        lengths: adjusted(
            s.ids,
            punctuation_lengthened(s.ids, with_base_lengths(s).lengths, 0),
            0,
        ),
        ..s
    }
}

/// Whether the punctuation at `p` lengthens the phoneme at `i`: `i` lies
/// between the start of the phrase of `p` and `p`.
pub open spec fn reaches(ids: Seq<u8>, p: int, i: int) -> bool {
    1 <= p < ids.len() && has_flag2(ids[p], PUNCTUATION) && phrase_start(ids, p - 1) <= i < p
}

/// The number of punctuation phonemes from `idx` on that lengthen the phoneme
/// at `i`.
pub open spec fn times_reached(ids: Seq<u8>, i: int, idx: int) -> nat
    decreases ids.len() - idx,
{
    if 0 <= idx < ids.len() {
        if reaches(ids, idx, i) {
            1 + times_reached(ids, i, idx + 1)
        } else {
            times_reached(ids, i, idx + 1)
        }
    } else {
        0
    }
}

/// A duration lengthened `n` times.
pub open spec fn grown(length: u8, n: nat) -> u8
    decreases n,
{
    if n == 0 {
        length
    } else {
        grown(lengthened(length), (n - 1) as nat)
    }
}

/// Whether a duration can be lengthened `n` times without leaving a byte.
pub open spec fn grows_within_byte(length: u8, n: nat) -> bool
    decreases n,
{
    n == 0 || (length as int / 2 + length as int + 1 <= 255 && grows_within_byte(
        lengthened(length),
        (n - 1) as nat,
    ))
}

proof fn lemma_phrase_start_bounds(ids: Seq<u8>, j: int)
    requires
        0 <= j,
    ensures
        0 <= phrase_start(ids, j) <= j,
    decreases j,
{
    if 0 < j < ids.len() && ids[j] != END && !has_flag(ids[j], VOWEL) {
        lemma_phrase_start_bounds(ids, j - 1);
    }
}

proof fn lemma_lengthened_range(ids: Seq<u8>, lengths: Seq<u8>, j: int, end: int)
    requires
        0 <= j <= end <= ids.len() == lengths.len(),
    ensures
        lengthened_range(ids, lengths, j, end).len() == lengths.len(),
        forall|i: int|
            0 <= i < lengths.len() ==> #[trigger] lengthened_range(ids, lengths, j, end)[i] == (if j
                <= i < end && takes_lengthening(ids[i]) {
                lengthened(lengths[i])
            } else {
                lengths[i]
            }),
    decreases end - j,
{
    if j < end {
        let next = if takes_lengthening(ids[j]) {
            lengths.update(j, lengthened(lengths[j]))
        } else {
            lengths
        };
        lemma_lengthened_range(ids, next, j + 1, end);
    }
}

/// What the lengthening before punctuation comes to for one phoneme: a
/// phoneme that takes the lengthening is lengthened once for each punctuation
/// that reaches it, and any other keeps its duration.
pub proof fn lemma_punctuation_lengthened(ids: Seq<u8>, lengths: Seq<u8>, idx: int, i: int)
    requires
        0 <= idx <= ids.len() == lengths.len(),
        0 <= i < ids.len(),
    ensures
        punctuation_lengthened(ids, lengths, idx).len() == lengths.len(),
        punctuation_lengthened(ids, lengths, idx)[i] == (if takes_lengthening(ids[i]) {
            grown(lengths[i], times_reached(ids, i, idx))
        } else {
            lengths[i]
        }),
    decreases ids.len() - idx,
{
    if idx < ids.len() {
        let next = lengthened_before(ids, lengths, idx);
        if 1 <= idx && has_flag2(ids[idx], PUNCTUATION) {
            lemma_phrase_start_bounds(ids, idx - 1);
            lemma_lengthened_range(ids, lengths, phrase_start(ids, idx - 1), idx);
        }
        assert(next.len() == lengths.len());
        assert(next[i] == (if reaches(ids, idx, i) && takes_lengthening(ids[i]) {
            lengthened(lengths[i])
        } else {
            lengths[i]
        }));
        lemma_punctuation_lengthened(ids, next, idx + 1, i);
    }
}

proof fn lemma_grown_is_longer(length: u8, n: nat)
    requires
        grows_within_byte(length, n),
    ensures
        grown(length, n) >= length,
        n >= 1 ==> grown(length, n) > length,
    decreases n,
{
    if n >= 1 {
        lemma_grown_is_longer(lengthened(length), (n - 1) as nat);
    }
}

proof fn lemma_times_reached_counts(ids: Seq<u8>, i: int, idx: int, p: int)
    requires
        0 <= idx <= p,
        reaches(ids, p, i),
    ensures
        times_reached(ids, i, idx) >= 1,
    decreases p - idx,
{
    if idx < p {
        lemma_times_reached_counts(ids, i, idx + 1, p);
    }
}

/// A phoneme right before punctuation that takes the lengthening comes out of
/// the lengthening pass strictly longer than its base duration, as long as
/// none of its lengthenings leaves a byte.
pub proof fn lemma_lengthening_is_monotonic(s: PhonemeSeq, i: int)
    requires
        s.wf(),
        0 <= i,
        i + 1 < s.ids.len(),
        has_flag2(s.ids[i + 1], PUNCTUATION),
        takes_lengthening(s.ids[i]),
        grows_within_byte(with_base_lengths(s).lengths[i], times_reached(s.ids, i, 0)),
    ensures
        punctuation_lengthened(s.ids, with_base_lengths(s).lengths, 0)[i] > with_base_lengths(
            s,
        ).lengths[i],
{
    let base = with_base_lengths(s).lengths;
    lemma_phrase_start_bounds(s.ids, i);
    lemma_times_reached_counts(s.ids, i, 0, i + 1);
    lemma_punctuation_lengthened(s.ids, base, 0, i);
    lemma_grown_is_longer(base[i], times_reached(s.ids, i, 0));
}

fn lengthen(length: u8) -> (r: u8)
    ensures
        r == lengthened(length),
{
    ((length as u16 / 2 + length as u16 + 1) % 256) as u8
}

fn lengthen_quarter(length: u8) -> (r: u8)
    ensures
        r == quarter_longer(length),
{
    ((length as u16 / 4 + length as u16 + 1) % 256) as u8
}

/// Gives every phoneme its base duration by stress.
pub fn assign_base_lengths(mem: &mut Phonemes)
    requires
        old(mem).wf(),
    ensures
        final(mem)@ == with_base_lengths(old(mem)@),
        final(mem).wf(),
{
    let n = mem.len();
    let mut idx: usize = 0;
    while idx < n
        invariant
            mem.wf(),
            idx <= n == mem@.len(),
            mem@.ids == old(mem)@.ids,
            mem@.stress == old(mem)@.stress,
            forall|j: int|
                0 <= j < idx ==> mem@.lengths[j] == base_length(
                    old(mem)@.ids[j],
                    old(mem)@.stress[j],
                ),
        decreases n - idx,
    {
        let stress = mem.stress_at(idx);
        let id = mem.id_at(idx);
        let length = if stress == 0 || stress >= 128 {
            lookup(&PHONEME_LENGTH_TABLE, id as usize)
        } else {
            lookup(&PHONEME_STRESSED_LENGTH_TABLE, id as usize)
        };
        mem.set_length(idx, length);
        idx += 1;
    }
    assert(mem@.lengths =~= with_base_lengths(old(mem)@).lengths);
}

fn find_phrase_start(mem: &Phonemes, from: usize) -> (r: usize)
    requires
        mem.wf(),
    ensures
        r == phrase_start(mem@.ids, from as int),
        r <= from,
{
    let mut j = from;
    while j > 0 && j < mem.len() && mem.id_at(j) != END && !test_flag(mem.id_at(j), VOWEL)
        invariant
            j <= from,
            phrase_start(mem@.ids, j as int) == phrase_start(mem@.ids, from as int),
        decreases j,
    {
        j -= 1;
    }
    j
}

/// Lengthens, for each punctuation, what stands between the start of its
/// phrase and it, as far as the lengthening applies.
pub fn lengthen_punctuation(mem: &mut Phonemes)
    requires
        old(mem).wf(),
    ensures
        final(mem)@ == (PhonemeSeq {
            lengths: punctuation_lengthened(old(mem)@.ids, old(mem)@.lengths, 0),
            ..old(mem)@
        }),
        final(mem).wf(),
{
    let n = mem.len();
    let ghost goal = punctuation_lengthened(mem@.ids, mem@.lengths, 0);
    let mut idx: usize = 0;
    while idx < n
        invariant
            mem.wf(),
            idx <= n == mem@.len(),
            mem@.ids == old(mem)@.ids,
            mem@.stress == old(mem)@.stress,
            punctuation_lengthened(mem@.ids, mem@.lengths, idx as int) == goal,
        decreases n - idx,
    {
        if idx >= 1 && test_flag2(mem.id_at(idx), PUNCTUATION) {
            let start = find_phrase_start(mem, idx - 1);
            let ghost target = lengthened_before(mem@.ids, mem@.lengths, idx as int);
            let mut j = start;
            while j < idx
                invariant
                    mem.wf(),
                    start <= j <= idx < n == mem@.len(),
                    mem@.ids == old(mem)@.ids,
                    mem@.stress == old(mem)@.stress,
                    lengthened_range(mem@.ids, mem@.lengths, j as int, idx as int) == target,
                decreases idx - j,
            {
                let id = mem.id_at(j);
                if id != END && (!test_flag2(id, FRICATIVE) || test_flag(id, VOICED)) {
                    let length = lengthen(mem.length_at(j));
                    mem.set_length(j, length);
                }
                j += 1;
            }
        }
        idx += 1;
    }
}

fn adjust_at(mem: &mut Phonemes, idx: usize)
    requires
        old(mem).wf(),
        idx < old(mem)@.len(),
    ensures
        final(mem)@ == (PhonemeSeq {
            lengths: adjusted_at(old(mem)@.ids, old(mem)@.lengths, idx as int),
            ..old(mem)@
        }),
        final(mem).wf(),
{
    let id = mem.id_at(idx);
    let next = mem.id_at(idx + 1);
    if test_flag(id, VOWEL) {
        if !test_flag(next, CONSONANT) {
            if (next == 18 || next == 19) && test_flag(mem.id_at(idx + 2), CONSONANT) {
                let length = sub8(mem.length_at(idx), 1);
                mem.set_length(idx, length);
            }
        } else if !test_flag(next, VOICED) {
            if test_flag(next, PLOSIVE) {
                let length = mem.length_at(idx) / 8;
                mem.set_length(idx, length);
            }
        } else {
            let length = lengthen_quarter(mem.length_at(idx));
            mem.set_length(idx, length);
        }
    } else if test_flag2(id, NASAL) {
        if test_flag(next, STOP) {
            mem.set_length(idx + 1, 6);
            mem.set_length(idx, 5);
        }
    } else if test_flag(id, STOP) {
        let j = mem.next_sound_from(idx + 1);
        if test_flag(mem.id_at(j), STOP) {
            let after = mem.length_at(j) / 2 + 1;
            mem.set_length(j, after);
            let length = mem.length_at(idx) / 2 + 1;
            mem.set_length(idx, length);
        }
    } else if test_flag2(id, LIQUID) && test_flag(mem.id_before(idx), PLOSIVE) {
        let length = sub8(mem.length_at(idx), 2);
        mem.set_length(idx, length);
    }
}

/// Adjusts the duration of each phoneme by what stands around it.
pub fn adjust_lengths(mem: &mut Phonemes)
    requires
        old(mem).wf(),
    ensures
        final(mem)@ == (PhonemeSeq {
            lengths: adjusted(old(mem)@.ids, old(mem)@.lengths, 0),
            ..old(mem)@
        }),
        final(mem).wf(),
{
    let n = mem.len();
    let ghost goal = adjusted(mem@.ids, mem@.lengths, 0);
    let mut idx: usize = 0;
    while idx < n
        invariant
            mem.wf(),
            idx <= n == mem@.len(),
            mem@.ids == old(mem)@.ids,
            mem@.stress == old(mem)@.stress,
            adjusted(mem@.ids, mem@.lengths, idx as int) == goal,
        decreases n - idx,
    {
        adjust_at(mem, idx);
        idx += 1;
    }
}

/// Sets the duration of every phoneme: its base duration by stress, then the
/// lengthening before punctuation, then the adjustments by context. Ids and
/// stress stay as they are.
pub fn set_phoneme_length(mem: &mut Phonemes)
    requires
        old(mem).wf(),
    ensures
        final(mem)@ == with_durations(old(mem)@),
        final(mem).wf(),
{
    assign_base_lengths(mem);
    lengthen_punctuation(mem);
    adjust_lengths(mem);
}

} // verus!
