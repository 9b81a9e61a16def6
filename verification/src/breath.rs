//! The end of the rule chain: cutting the sequence at the first id outside
//! the inventory, and the insertion of breath marks.

use vstd::prelude::*;
use crate::bytes::{add8, wrap_add};
use crate::phonemes::{agrees, insert, PhonemeSeq, Phonemes, SynthError};
use crate::tables::{has_flag2, test_flag2, BREAK, PUNCTUATION};

verus! {

/// Largest id of the inventory.
pub const LAST_ID: u8 = 80;

/// Number of frames that a breath group must stay under.
pub const BREATH_LIMIT: u8 = 232;

/// The first position from `i` on whose id lies outside the inventory.
pub open spec fn first_invalid(ids: Seq<u8>, i: int) -> int
    decreases ids.len() - i,
{
    if 0 <= i < ids.len() && ids[i] <= LAST_ID {
        first_invalid(ids, i + 1)
    } else {
        i
    }
}

/// The sequence cut off before the first id that lies outside the inventory.
pub open spec fn pruned(s: PhonemeSeq) -> PhonemeSeq {
    s.prefix(first_invalid(s.ids, 0))
}

proof fn lemma_first_invalid(ids: Seq<u8>, i: int)
    requires
        0 <= i <= ids.len(),
    ensures
        i <= first_invalid(ids, i) <= ids.len(),
        forall|j: int| i <= j < first_invalid(ids, i) ==> ids[j] <= LAST_ID,
        first_invalid(ids, i) < ids.len() ==> ids[first_invalid(ids, i)] > LAST_ID,
    decreases ids.len() - i,
{
    if i < ids.len() && ids[i] <= LAST_ID {
        lemma_first_invalid(ids, i + 1);
    }
}

/// Cuts the buffer off before the first id that lies outside the inventory;
/// what stands before it stays as it is.
pub fn delete_errors(mem: &mut Phonemes)
    requires
        old(mem).wf(),
    ensures
        final(mem)@ == pruned(old(mem)@),
        final(mem).wf(),
        final(mem)@.len() <= old(mem)@.len(),
        forall|j: int| 0 <= j < final(mem)@.len() ==> final(mem)@.ids[j] <= LAST_ID,
        final(mem)@.len() < old(mem)@.len() ==> old(mem)@.ids[final(mem)@.len() as int]
            > LAST_ID,
{
    proof {
        lemma_first_invalid(mem@.ids, 0);
    }
    let n = mem.len();
    let mut idx: usize = 0;
    while idx < n && mem.id_at(idx) <= LAST_ID
        invariant
            idx <= n == mem@.len(),
            mem@ == old(mem)@,
            first_invalid(mem@.ids, idx as int) == first_invalid(mem@.ids, 0),
        decreases n - idx,
    {
        idx += 1;
    }
    mem.phoneme_index.truncate(idx);
    mem.phoneme_length.truncate(idx);
    mem.stress.truncate(idx);
}

/// The state of the search for breath marks: the frames gathered since the
/// last mark, and the position of the last pause seen, if any.
pub struct BreathState {
    pub gathered: u8,
    pub pause: Option<int>,
}

/// The sequence with the pause at `at` turned into a glottal stop of four
/// frames without stress, and a breath mark behind it.
pub open spec fn breath_taken(s: PhonemeSeq, at: int) -> Option<PhonemeSeq> {
    s.with_id(at, 31).with_length(at, 4).with_stress(at, 0).try_inserted(at + 1, BREAK, 0, 0)
}

/// The sequence with breath marks inserted from `idx` on.
///
/// Each phoneme adds its duration to the frames gathered. While these stay
/// under the limit, punctuation is followed by a breath mark, and a pause is
/// remembered. Once they reach the limit, the last pause seen becomes a
/// glottal stop with a breath mark behind it, the count starts again at zero,
/// and the search goes on behind that mark. There is no result where a mark
/// has to go into a full sequence, or where the limit is reached before any
/// pause was seen.
pub open spec fn breath_inserted_from(s: PhonemeSeq, idx: int, st: BreathState) -> Option<
    PhonemeSeq,
>
    decreases 256 - s.ids.len(), 258 - idx,
{
    if 0 <= idx < s.ids.len() <= 255 {
        let phoneme = s.ids[idx];
        let gathered = wrap_add(st.gathered, s.length_at(idx));
        if gathered < BREATH_LIMIT {
            if phoneme != BREAK && has_flag2(phoneme, PUNCTUATION) {
                match s.try_inserted(idx + 1, BREAK, 0, 0) {
                    Some(t) => breath_inserted_from(
                        t,
                        idx + 2,
                        BreathState { gathered, pause: st.pause },
                    ),
                    None => None,
                }
            } else if phoneme == 0 {
                breath_inserted_from(s, idx + 1, BreathState { gathered, pause: Some(idx) })
            } else {
                breath_inserted_from(s, idx + 1, BreathState { gathered, pause: st.pause })
            }
        } else {
            match st.pause {
                Some(at) => match breath_taken(s, at) {
                    Some(t) => breath_inserted_from(
                        t,
                        at + 2,
                        BreathState { gathered: 0, pause: st.pause },
                    ),
                    None => None,
                },
                None => None,
            }
        }
    } else {
        Some(s)
    }
}

/// The sequence with its breath marks inserted.
pub open spec fn breath_inserted(s: PhonemeSeq) -> Option<PhonemeSeq> {
    breath_inserted_from(s, 0, BreathState { gathered: 0, pause: None })
}

/// Inserts the breath marks: one behind each punctuation, and one at the last
/// pause whenever the frames since the last mark reach the limit.
///
/// Fails where a mark has to go into a full buffer, or where the limit is
/// reached before any pause was seen.
pub fn insert_breath(mem: &mut Phonemes) -> (r: Result<(), SynthError>)
    requires
        old(mem).wf(),
    ensures
        final(mem).wf(),
        agrees(r, final(mem)@, breath_inserted(old(mem)@)),
{
    let ghost goal = breath_inserted(mem@);
    let mut gathered: u8 = 0;
    let mut idx: usize = 0;
    let mut pause: Option<usize> = None;
    while idx < mem.len()
        invariant
            mem.wf(),
            idx <= 258,
            goal == breath_inserted(old(mem)@),
            pause.is_some() ==> pause.unwrap() < mem@.len(),
            breath_inserted_from(
                mem@,
                idx as int,
                BreathState {
                    gathered,
                    pause: match pause {
                        Some(at) => Some(at as int),
                        None => None,
                    },
                },
            ) == goal,
        decreases 256 - mem@.len(), 258 - idx,
    {
        let phoneme = mem.id_at(idx);
        gathered = add8(gathered, mem.length_at(idx));
        let ghost before = mem@;
        if gathered < BREATH_LIMIT {
            if phoneme != BREAK && test_flag2(phoneme, PUNCTUATION) {
                match insert(mem, idx + 1, BREAK, 0, 0) {
                    Ok(()) => {},
                    Err(e) => {
                        return Err(e);
                    },
                }
                idx += 2;
            } else {
                if phoneme == 0 {
                    pause = Some(idx);
                }
                idx += 1;
            }
        } else {
            match pause {
                Some(at) => {
                    mem.set_id(at, 31);
                    mem.set_length(at, 4);
                    mem.set_stress(at, 0);
                    gathered = 0;
                    match insert(mem, at + 1, BREAK, 0, 0) {
                        Ok(()) => {},
                        Err(e) => {
                            return Err(e);
                        },
                    }
                    idx = at + 2;
                },
                None => {
                    return Err(SynthError::CapacityExceeded);
                },
            }
        }
    }
    Ok(())
}

} // verus!
