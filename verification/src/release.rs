//! The release of stop consonants: a stop is followed by the two phonemes that
//! make up its burst, unless what follows it holds the burst back.

use vstd::prelude::*;
use crate::bytes::{add8, wrap_add};
use crate::phonemes::{agrees, insert, next_sound, PhonemeSeq, Phonemes, SynthError};
use crate::tables::{
    entry, has_flag, lookup, test_flag, END, HOLDS_RELEASE, PHONEME_LENGTH_TABLE, PLOSIVE, STOP,
};

verus! {

/// Whether the sound after an unvoiced plosive at `idx` holds back its
/// release: the next phoneme that is no pause is `/H`, `/X` or flagged so.
pub open spec fn release_held(s: PhonemeSeq, idx: int) -> bool {
    let next = s.id_at(next_sound(s.ids, idx + 1));
    next != END && (has_flag(next, HOLDS_RELEASE) || next == 36 || next == 37)
}

/// Whether the phoneme at `idx` is released: every stop consonant is, but for
/// an unvoiced plosive whose release is held back.
pub open spec fn is_released(s: PhonemeSeq, idx: int) -> bool {
    has_flag(s.id_at(idx), STOP) && (!has_flag(s.id_at(idx), PLOSIVE) || !release_held(s, idx))
}

/// The sequence with the two phonemes of the release inserted behind the stop
/// at `idx`: the two ids that follow the id of the stop, each with its
/// unstressed duration and the stress of the stop.
pub open spec fn released_at(s: PhonemeSeq, idx: int) -> Option<PhonemeSeq> {
    let first = wrap_add(s.id_at(idx), 1);
    let second = wrap_add(s.id_at(idx), 2);
    match s.try_inserted(
        idx + 1,
        first,
        entry(PHONEME_LENGTH_TABLE, first as int),
        s.stress_at(idx),
    ) {
        Some(t) => t.try_inserted(
            idx + 2,
            second,
            entry(PHONEME_LENGTH_TABLE, second as int),
            s.stress_at(idx),
        ),
        None => None,
    }
}

/// The sequence with every stop consonant from `idx` on released, from left
/// to right; the phonemes of a release are passed over.
pub open spec fn released_from(s: PhonemeSeq, idx: int) -> Option<PhonemeSeq>
    decreases 258 - idx,
{
    if 0 <= idx < s.ids.len() && idx < 256 {
        if is_released(s, idx) {
            match released_at(s, idx) {
                Some(t) => released_from(t, idx + 3),
                None => None,
            }
        } else {
            released_from(s, idx + 1)
        }
    } else {
        Some(s)
    }
}

fn release_at(mem: &mut Phonemes, idx: usize) -> (r: Result<(), SynthError>)
    requires
        old(mem).wf(),
        idx < old(mem)@.len(),
    ensures
        final(mem).wf(),
        agrees(r, final(mem)@, released_at(old(mem)@, idx as int)),
{
    let phoneme = mem.id_at(idx);
    let stress = mem.stress_at(idx);
    let first = add8(phoneme, 1);
    let second = add8(phoneme, 2);
    match insert(mem, idx + 1, first, lookup(&PHONEME_LENGTH_TABLE, first as usize), stress) {
        Ok(()) => insert(
            mem,
            idx + 2,
            second,
            lookup(&PHONEME_LENGTH_TABLE, second as usize),
            stress,
        ),
        Err(e) => Err(e),
    }
}

/// Puts the two phonemes of its release behind every stop consonant that is
/// released.
///
/// Fails where a release has to go into a full buffer.
pub fn code41240(mem: &mut Phonemes) -> (r: Result<(), SynthError>)
    requires
        old(mem).wf(),
    ensures
        final(mem).wf(),
        agrees(r, final(mem)@, released_from(old(mem)@, 0)),
{
    let ghost goal = released_from(mem@, 0);
    let mut idx: usize = 0;
    while idx < mem.len()
        invariant
            mem.wf(),
            idx <= 258,
            goal == released_from(old(mem)@, 0),
            released_from(mem@, idx as int) == goal,
        decreases 258 - idx,
    {
        let phoneme = mem.id_at(idx);
        let mut released = false;
        if test_flag(phoneme, STOP) {
            if !test_flag(phoneme, PLOSIVE) {
                released = true;
            } else {
                let next = mem.id_at(mem.next_sound_from(idx + 1));
                released = !(next != END && (test_flag(next, HOLDS_RELEASE) || next == 36 || next
                    == 37));
            }
        }
        if released {
            let ghost before = mem@;
            match release_at(mem, idx) {
                Ok(()) => {},
                Err(e) => {
                    assert(released_from(before, idx as int) is None);
                    return Err(e);
                },
            }
            idx += 3;
        } else {
            idx += 1;
        }
    }
    Ok(())
}

} // verus!
