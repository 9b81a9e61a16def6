//! The rewriting of a parsed phoneme sequence into allophones, and the
//! passing of stress to the consonant before a stressed vowel.

use vstd::prelude::*;
use crate::bytes::{sub8, wrap_sub};
use crate::phonemes::{agrees, insert, PhonemeSeq, Phonemes, SynthError};
use crate::tables::{
    has_flag, has_flag2, test_flag, test_flag2, ALVEOLAR, CONSONANT, DIPHTHONG, END, FRONT_GLIDE,
    PLOSIVE, VOWEL,
};

verus! {

/// The sequence after the closing rules for the phoneme `phoneme` at `idx`.
///
/// `UW` after an alveolar becomes `UX`. `CH` and `J` are followed by their
/// second half, which takes their stress. `T` and `D` between a vowel and
/// either a vowel or the end become the flap `DX`.
pub open spec fn closed_at(s: PhonemeSeq, idx: int, phoneme: u8) -> Option<PhonemeSeq> {
    if phoneme == 53 {
        if has_flag2(s.id_at(idx - 1), ALVEOLAR) {
            Some(s.with_id(idx, 16))
        } else {
            Some(s)
        }
    } else if phoneme == 42 {
        s.try_inserted(idx + 1, 43, 0, s.stress_at(idx))
    } else if phoneme == 44 {
        s.try_inserted(idx + 1, 45, 0, s.stress_at(idx))
    } else if (phoneme == 69 || phoneme == 57) && has_flag(s.id_at(idx - 1), VOWEL) && (s.id_at(
        idx + 1,
    ) == END || has_flag(s.id_at(idx + 1), VOWEL)) {
        Some(s.with_id(idx, 30))
    } else {
        Some(s)
    }
}

/// The glide that follows a diphthong: `YX` after one that ends in a front
/// glide, `WX` after any other.
pub open spec fn glide_of(phoneme: u8) -> u8 {
    if has_flag(phoneme, FRONT_GLIDE) {
        21
    } else {
        20
    }
}

/// The consonant that one of the digraphs `UL`, `UM`, `UN` ends in.
pub open spec fn digraph_consonant(phoneme: u8) -> u8 {
    if phoneme == 78 {
        24
    } else if phoneme == 79 {
        27
    } else {
        28
    }
}

/// Whether a glottal stop goes between the stressed vowel at `idx` and the
/// stressed vowel behind the pause that follows it.
pub open spec fn wants_glottal_stop(s: PhonemeSeq, idx: int) -> bool {
    &&& has_flag(s.id_at(idx), VOWEL)
    &&& s.stress_at(idx) != 0
    &&& s.id_at(idx + 1) == 0
    &&& s.id_at(idx + 2) != END
    &&& has_flag(s.id_at(idx + 2), VOWEL)
    &&& s.stress_at(idx + 2) != 0
}

/// The sequence after the rules for an `R` at `idx`: after `T` the pair
/// becomes `CH`, its second half and `R`; after `D` it becomes `J`, its second
/// half and `R`; after a vowel the `R` becomes `RX`.
pub open spec fn r_rewritten(s: PhonemeSeq, idx: int) -> Option<PhonemeSeq> {
    let prev = s.id_at(idx - 1);
    if prev == 69 {
        s.with_id(idx - 1, 42).try_inserted(idx, 43, 0, s.stress_at(idx - 1))
    } else if prev == 57 {
        s.with_id(idx - 1, 44).try_inserted(idx, 45, 0, s.stress_at(idx - 1))
    } else if has_flag(prev, VOWEL) {
        Some(s.with_id(idx, 18))
    } else {
        Some(s)
    }
}

/// The sequence after the rules for a `K` at `idx`: before anything but a
/// front vowel it becomes `KX`; after `S` it then becomes `G`; else the
/// closing rules apply.
pub open spec fn k_rewritten(s: PhonemeSeq, idx: int) -> Option<PhonemeSeq> {
    let next = s.id_at(idx + 1);
    let t = if next == END || !has_flag(next, FRONT_GLIDE) {
        s.with_id(idx, 75)
    } else {
        s
    };
    if s.id_at(idx - 1) == 32 {
        Some(t.with_id(idx, 60))
    } else {
        closed_at(t, idx, 72)
    }
}

/// The sequence after the rewriting rules at `idx`, or nothing where a rule
/// has to insert a phoneme into a full sequence.
///
/// The first rule that applies decides. A pause stays. A diphthong is
/// followed by its glide, which takes its duration and stress, and the closing
/// rules apply to the diphthong. `UL`, `UM` and `UN` become `AX` and their
/// consonant. A stressed vowel, a pause and a stressed vowel get a glottal stop
/// behind the pause. Then come the rules for `R`; for `L`, which becomes `LX`
/// after a vowel; for `S`, which becomes `Z` after `G`; for `K`; for `G`,
/// which becomes `GX` before anything but the end or a front vowel; for an
/// unvoiced plosive after `S`, which becomes its voiced partner; and last the
/// closing rules.
pub open spec fn rewritten_at(s: PhonemeSeq, idx: int) -> Option<PhonemeSeq> {
    let phoneme = s.id_at(idx);
    let prev = s.id_at(idx - 1);
    let next = s.id_at(idx + 1);
    if phoneme == 0 {
        Some(s)
    } else if has_flag(phoneme, DIPHTHONG) {
        match s.try_inserted(idx + 1, glide_of(phoneme), s.length_at(idx), s.stress_at(idx)) {
            Some(t) => closed_at(t, idx, phoneme),
            None => None,
        }
    } else if phoneme == 78 || phoneme == 79 || phoneme == 80 {
        s.with_id(idx, 13).try_inserted(
            idx + 1,
            digraph_consonant(phoneme),
            s.length_at(idx),
            s.stress_at(idx),
        )
    } else if wants_glottal_stop(s, idx) {
        s.try_inserted(idx + 2, 31, 0, 0)
    } else if phoneme == 23 {
        r_rewritten(s, idx)
    } else if phoneme == 24 {
        if has_flag(prev, VOWEL) {
            Some(s.with_id(idx, 19))
        } else {
            Some(s)
        }
    } else if phoneme == 32 {
        if prev == 60 {
            Some(s.with_id(idx, 38))
        } else {
            Some(s)
        }
    } else if phoneme == 72 {
        k_rewritten(s, idx)
    } else if phoneme == 60 {
        if next != END && !has_flag(next, FRONT_GLIDE) {
            Some(s.with_id(idx, 63))
        } else {
            Some(s)
        }
    } else if has_flag(phoneme, PLOSIVE) && prev == 32 {
        Some(s.with_id(idx, wrap_sub(phoneme, 12)))
    } else {
        closed_at(s, idx, phoneme)
    }
}

/// The sequence after the rewriting rules at every position from `idx` on,
/// from left to right; a phoneme that a rule inserts is visited in its turn.
pub open spec fn rewritten_from(s: PhonemeSeq, idx: int) -> Option<PhonemeSeq>
    decreases 256 - idx,
{
    if 0 <= idx < s.ids.len() && idx < 256 {
        match rewritten_at(s, idx) {
            Some(t) => rewritten_from(t, idx + 1),
            None => None,
        }
    } else {
        Some(s)
    }
}

/// The closing rules for the phoneme `phoneme` at `*idx`; moves `*idx` on by
/// one.
pub fn last_rules(phoneme: u8, mem: &mut Phonemes, idx: &mut usize) -> (r: Result<(), SynthError>)
    requires
        old(mem).wf(),
        *old(idx) < usize::MAX,
    ensures
        final(mem).wf(),
        agrees(r, final(mem)@, closed_at(old(mem)@, *old(idx) as int, phoneme)),
        *final(idx) == *old(idx) + 1,
{
    let at = *idx;
    *idx = at + 1;
    if phoneme == 53 {
        if test_flag2(mem.id_before(at), ALVEOLAR) {
            mem.set_id(at, 16);
        }
        Ok(())
    } else if phoneme == 42 {
        let stress = mem.stress_at(at);
        insert(mem, at + 1, 43, 0, stress)
    } else if phoneme == 44 {
        let stress = mem.stress_at(at);
        insert(mem, at + 1, 45, 0, stress)
    } else {
        if (phoneme == 69 || phoneme == 57) && test_flag(mem.id_before(at), VOWEL) {
            let next = mem.id_at(at + 1);
            if next == END || test_flag(next, VOWEL) {
                mem.set_id(at, 30);
            }
        }
        Ok(())
    }
}

fn rewrite_r(mem: &mut Phonemes, idx: usize) -> (r: Result<(), SynthError>)
    requires
        old(mem).wf(),
        idx < old(mem)@.len(),
    ensures
        final(mem).wf(),
        agrees(r, final(mem)@, r_rewritten(old(mem)@, idx as int)),
{
    let prev = mem.id_before(idx);
    if prev == 69 || prev == 57 {
        let stress = mem.stress_at(idx - 1);
        mem.set_id(
            idx - 1,
            if prev == 69 {
                42
            } else {
                44
            },
        );
        insert(
            mem,
            idx,
            if prev == 69 {
                43
            } else {
                45
            },
            0,
            stress,
        )
    } else {
        if test_flag(prev, VOWEL) {
            mem.set_id(idx, 18);
        }
        Ok(())
    }
}

fn rewrite_at(mem: &mut Phonemes, idx: usize) -> (r: Result<(), SynthError>)
    requires
        old(mem).wf(),
        idx < old(mem)@.len(),
    ensures
        final(mem).wf(),
        agrees(r, final(mem)@, rewritten_at(old(mem)@, idx as int)),
{
    let phoneme = mem.id_at(idx);
    let prev = mem.id_before(idx);
    let next = mem.id_at(idx + 1);
    let mut at = idx;
    if phoneme == 0 {
        Ok(())
    } else if test_flag(phoneme, DIPHTHONG) {
        let glide: u8 = if test_flag(phoneme, FRONT_GLIDE) {
            21
        } else {
            20
        };
        let length = mem.length_at(idx);
        let stress = mem.stress_at(idx);
        match insert(mem, idx + 1, glide, length, stress) {
            Ok(()) => last_rules(phoneme, mem, &mut at),
            Err(e) => Err(e),
        }
    } else if phoneme == 78 || phoneme == 79 || phoneme == 80 {
        let consonant: u8 = if phoneme == 78 {
            24
        } else if phoneme == 79 {
            27
        } else {
            28
        };
        let length = mem.length_at(idx);
        let stress = mem.stress_at(idx);
        mem.set_id(idx, 13);
        insert(mem, idx + 1, consonant, length, stress)
    } else if test_flag(phoneme, VOWEL) && mem.stress_at(idx) != 0 && next == 0 && mem.id_at(
        idx + 2,
    ) != END && test_flag(mem.id_at(idx + 2), VOWEL) && mem.stress_at(idx + 2) != 0 {
        insert(mem, idx + 2, 31, 0, 0)
    } else if phoneme == 23 {
        rewrite_r(mem, idx)
    } else if phoneme == 24 {
        if test_flag(prev, VOWEL) {
            mem.set_id(idx, 19);
        }
        Ok(())
    } else if phoneme == 32 {
        if prev == 60 {
            mem.set_id(idx, 38);
        }
        Ok(())
    } else if phoneme == 72 {
        if next == END || !test_flag(next, FRONT_GLIDE) {
            mem.set_id(idx, 75);
        }
        if prev == 32 {
            mem.set_id(idx, 60);
            Ok(())
        } else {
            last_rules(72, mem, &mut at)
        }
    } else if phoneme == 60 {
        if next != END && !test_flag(next, FRONT_GLIDE) {
            mem.set_id(idx, 63);
        }
        Ok(())
    } else if test_flag(phoneme, PLOSIVE) && prev == 32 {
        mem.set_id(idx, sub8(phoneme, 12));
        Ok(())
    } else {
        last_rules(phoneme, mem, &mut at)
    }
}

/// Rewrites the parsed phonemes into allophones, position by position from
/// left to right.
///
/// Fails where a rule has to insert a phoneme into a full buffer.
pub fn parse_2(mem: &mut Phonemes) -> (r: Result<(), SynthError>)
    requires
        old(mem).wf(),
    ensures
        final(mem).wf(),
        agrees(r, final(mem)@, rewritten_from(old(mem)@, 0)),
{
    let ghost goal = rewritten_from(mem@, 0);
    let mut idx: usize = 0;
    while idx < mem.len()
        invariant
            mem.wf(),
            idx <= 256,
            goal == rewritten_from(old(mem)@, 0),
            rewritten_from(mem@, idx as int) == goal,
        decreases 256 - idx,
    {
        let ghost before = mem@;
        match rewrite_at(mem, idx) {
            Ok(()) => {},
            Err(e) => {
                assert(rewritten_from(before, idx as int) is None);
                return Err(e);
            },
        }
        idx += 1;
    }
    Ok(())
}

/// Whether the phoneme at `i` takes over the stress of the phoneme behind it:
/// a consonant does, from a vowel whose stress is between 1 and 127.
pub open spec fn takes_stress(s: PhonemeSeq, i: int) -> bool {
    &&& has_flag(s.id_at(i), CONSONANT)
    &&& has_flag(s.id_at(i + 1), VOWEL)
    &&& 0 < s.stress_at(i + 1) < 128
}

/// The sequence with the stress of each stressed vowel, plus one, copied onto
/// the consonant right before it.
pub open spec fn stress_copied(s: PhonemeSeq) -> PhonemeSeq {
    PhonemeSeq {
        stress: Seq::new(
            s.stress.len(),
            |i: int|
                if takes_stress(s, i) {
                    (s.stress_at(i + 1) + 1) as u8
                } else {
                    s.stress[i]
                },
        ),
        ..s
    }
}

/// Gives each consonant that stands right before a stressed vowel the stress
/// of that vowel plus one. Ids and durations stay as they are.
pub fn copy_stress(mem: &mut Phonemes)
    requires
        old(mem).wf(),
    ensures
        final(mem)@ == stress_copied(old(mem)@),
        final(mem).wf(),
{
    let n = mem.len();
    let mut idx: usize = 0;
    while idx < n
        invariant
            mem.wf(),
            old(mem).wf(),
            idx <= n == mem@.len(),
            mem@.ids == old(mem)@.ids,
            mem@.lengths == old(mem)@.lengths,
            forall|j: int| 0 <= j < idx ==> mem@.stress[j] == stress_copied(old(mem)@).stress[j],
            forall|j: int| idx <= j < n ==> mem@.stress[j] == old(mem)@.stress[j],
        decreases n - idx,
    {
        let next_stress = mem.stress_at(idx + 1);
        if test_flag(mem.id_at(idx), CONSONANT) && test_flag(mem.id_at(idx + 1), VOWEL)
            && next_stress != 0 && next_stress < 128 {
            mem.set_stress(idx, next_stress + 1);
        }
        idx += 1;
    }
    assert(mem@.stress =~= stress_copied(old(mem)@).stress);
}

} // verus!
