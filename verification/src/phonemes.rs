//! The phoneme buffer: three parallel bounded sequences and their model.

use vstd::prelude::*;
use crate::tables::END;

verus! {

/// Largest number of phonemes a buffer holds: one slot of the 256 is kept for
/// the terminator.
pub const MAX_PHONEMES: usize = 255;

/// The two failures a synthesis call can end in.
#[derive(Clone, Copy, Debug, PartialEq, Eq, Structural)]
pub enum SynthError {
    /// The input holds a byte that starts no phoneme sign and marks no stress.
    ParseError { byte: u8, offset: usize },
    /// A phoneme or frame sequence would outgrow its fixed capacity.
    CapacityExceeded,
}

/// Mathematical model of a phoneme buffer: the active entries only, without
/// the terminator.
pub struct PhonemeSeq {
    pub ids: Seq<u8>,
    pub lengths: Seq<u8>,
    pub stress: Seq<u8>,
}

/// The id at `i` of a sequence of ids; every position outside the sequence
/// reads as the terminator.
pub open spec fn id_or_end(ids: Seq<u8>, i: int) -> u8 {
    if 0 <= i < ids.len() {
        ids[i]
    } else {
        END
    }
}

/// The sequence with the value at `i` replaced; unchanged where `i` lies
/// outside it.
pub open spec fn replaced(values: Seq<u8>, i: int, value: u8) -> Seq<u8> {
    if 0 <= i < values.len() {
        values.update(i, value)
    } else {
        values
    }
}

/// The first position from `j` on that holds no pause.
pub open spec fn next_sound(ids: Seq<u8>, j: int) -> int
    decreases ids.len() - j,
{
    if 0 <= j < ids.len() && ids[j] == 0 {
        next_sound(ids, j + 1)
    } else {
        j
    }
}

impl PhonemeSeq {
    /// The three sequences run in parallel and leave room for the terminator.
    pub open spec fn wf(self) -> bool {
        &&& self.ids.len() == self.lengths.len()
        &&& self.ids.len() == self.stress.len()
        &&& self.ids.len() <= MAX_PHONEMES
    }

    pub open spec fn len(self) -> nat {
        self.ids.len()
    }

    pub open spec fn empty() -> PhonemeSeq {
        PhonemeSeq { ids: Seq::empty(), lengths: Seq::empty(), stress: Seq::empty() }
    }

    /// The id at `i`; every position outside the active entries reads as the
    /// terminator.
    pub open spec fn id_at(self, i: int) -> u8 {
        id_or_end(self.ids, i)
    }

    /// The duration at `i`, zero outside the active entries.
    pub open spec fn length_at(self, i: int) -> u8 {
        if 0 <= i < self.lengths.len() {
            self.lengths[i]
        } else {
            0
        }
    }

    /// The stress at `i`, zero outside the active entries.
    pub open spec fn stress_at(self, i: int) -> u8 {
        if 0 <= i < self.stress.len() {
            self.stress[i]
        } else {
            0
        }
    }

    /// The sequence with the id at `i` replaced; unchanged where `i` is no
    /// active entry.
    pub open spec fn with_id(self, i: int, id: u8) -> PhonemeSeq {
        PhonemeSeq { ids: replaced(self.ids, i, id), ..self }
    }

    /// The sequence with the duration at `i` replaced; unchanged where `i` is
    /// no active entry.
    pub open spec fn with_length(self, i: int, length: u8) -> PhonemeSeq {
        PhonemeSeq { lengths: replaced(self.lengths, i, length), ..self }
    }

    /// The sequence with the stress at `i` replaced; unchanged where `i` is no
    /// active entry.
    pub open spec fn with_stress(self, i: int, stress: u8) -> PhonemeSeq {
        PhonemeSeq { stress: replaced(self.stress, i, stress), ..self }
    }

    /// Whether an entry can be inserted at `pos`.
    pub open spec fn can_insert(self, pos: int) -> bool {
        0 <= pos <= self.ids.len() && self.ids.len() < MAX_PHONEMES
    }

    /// The sequence with one entry inserted at `pos`; the entries from `pos`
    /// on move one place towards the end.
    pub open spec fn inserted(self, pos: int, id: u8, length: u8, stress: u8) -> PhonemeSeq {
        PhonemeSeq {
            ids: self.ids.insert(pos, id),
            lengths: self.lengths.insert(pos, length),
            stress: self.stress.insert(pos, stress),
        }
    }

    /// The sequence with one entry inserted at `pos`, where there is room.
    pub open spec fn try_inserted(self, pos: int, id: u8, length: u8, stress: u8) -> Option<
        PhonemeSeq,
    > {
        if self.can_insert(pos) {
            Some(self.inserted(pos, id, length, stress))
        } else {
            None
        }
    }

    /// The first `n` entries.
    pub open spec fn prefix(self, n: int) -> PhonemeSeq {
        PhonemeSeq {
            ids: self.ids.subrange(0, n),
            lengths: self.lengths.subrange(0, n),
            stress: self.stress.subrange(0, n),
        }
    }
}

/// Whether a pass that can only run out of room ended as its model says: in
/// success with the sequence of the model, or in the capacity error where the
/// model has no sequence.
pub open spec fn agrees(r: Result<(), SynthError>, after: PhonemeSeq, model: Option<PhonemeSeq>)
    -> bool {
    match model {
        Some(t) => r.is_ok() && after == t,
        None => r == Err::<(), SynthError>(SynthError::CapacityExceeded),
    }
}

/// A phoneme buffer of fixed capacity.
pub struct Phonemes {
    pub stress: Vec<u8>,
    pub phoneme_length: Vec<u8>,
    pub phoneme_index: Vec<u8>,
}

impl View for Phonemes {
    type V = PhonemeSeq;

    open spec fn view(&self) -> PhonemeSeq {
        PhonemeSeq { ids: self.phoneme_index@, lengths: self.phoneme_length@, stress: self.stress@ }
    }
}

impl Default for Phonemes {
    fn default() -> (r: Self)
        ensures
            r@ == PhonemeSeq::empty(),
            r.wf(),
    {
        Phonemes { stress: Vec::new(), phoneme_length: Vec::new(), phoneme_index: Vec::new() }
    }
}

impl Phonemes {
    pub open spec fn wf(&self) -> bool {
        self@.wf()
    }

    /// Tests whether the three fields run in parallel within the capacity.
    pub fn is_well_formed(&self) -> (r: bool)
        ensures
            r == self.wf(),
    {
        self.phoneme_index.len() == self.phoneme_length.len() && self.phoneme_index.len()
            == self.stress.len() && self.phoneme_index.len() <= MAX_PHONEMES
    }

    /// Number of active entries.
    pub fn len(&self) -> (r: usize)
        ensures
            r == self@.len(),
    {
        self.phoneme_index.len()
    }

    /// The id at `i`, or the terminator where `i` is no active entry.
    pub fn id_at(&self, i: usize) -> (r: u8)
        ensures
            r == self@.id_at(i as int),
    {
        if i < self.phoneme_index.len() {
            self.phoneme_index[i]
        } else {
            END
        }
    }

    /// The duration at `i`, or zero where `i` is no active entry.
    pub fn length_at(&self, i: usize) -> (r: u8)
        ensures
            r == self@.length_at(i as int),
    {
        if i < self.phoneme_length.len() {
            self.phoneme_length[i]
        } else {
            0
        }
    }

    /// The stress at `i`, or zero where `i` is no active entry.
    pub fn stress_at(&self, i: usize) -> (r: u8)
        ensures
            r == self@.stress_at(i as int),
    {
        if i < self.stress.len() {
            self.stress[i]
        } else {
            0
        }
    }

    /// The id before `i`, or the terminator where nothing stands before `i`.
    pub fn id_before(&self, i: usize) -> (r: u8)
        ensures
            r == self@.id_at(i as int - 1),
    {
        if i == 0 {
            END
        } else {
            self.id_at(i - 1)
        }
    }

    /// The first position from `from` on that holds no pause.
    pub fn next_sound_from(&self, from: usize) -> (r: usize)
        requires
            self.wf(),
        ensures
            r == next_sound(self@.ids, from as int),
            from <= r,
            r <= self@.len() || r == from,
    {
        let mut j = from;
        while j < self.phoneme_index.len() && self.phoneme_index[j] == 0
            invariant
                from <= j,
                j <= self@.len() || j == from,
                next_sound(self@.ids, j as int) == next_sound(self@.ids, from as int),
            decreases self@.len() - j,
        {
            j += 1;
        }
        j
    }

    /// Replaces the id at `i`; does nothing where `i` is no active entry.
    pub fn set_id(&mut self, i: usize, id: u8)
        ensures
            final(self)@ == old(self)@.with_id(i as int, id),
    {
        if i < self.phoneme_index.len() {
            self.phoneme_index[i] = id;
        }
    }

    /// Replaces the duration at `i`; does nothing where `i` is no active entry.
    pub fn set_length(&mut self, i: usize, length: u8)
        ensures
            final(self)@ == old(self)@.with_length(i as int, length),
    {
        if i < self.phoneme_length.len() {
            self.phoneme_length[i] = length;
        }
    }

    /// Replaces the stress at `i`; does nothing where `i` is no active entry.
    pub fn set_stress(&mut self, i: usize, stress: u8)
        ensures
            final(self)@ == old(self)@.with_stress(i as int, stress),
    {
        if i < self.stress.len() {
            self.stress[i] = stress;
        }
    }
}

/// Inserts one entry at `position`, moving the entries from there on one slot
/// towards the terminator.
///
/// Fails, and leaves the buffer as it was, where the buffer is full or
/// `position` lies behind the terminator.
pub fn insert(mem: &mut Phonemes, position: usize, ph_idx: u8, ph_len: u8, stress: u8) -> (r: Result<
    (),
    SynthError,
>)
    requires
        old(mem).wf(),
    ensures
        final(mem).wf(),
        old(mem)@.can_insert(position as int) ==> r.is_ok() && final(mem)@ == old(mem)@.inserted(
            position as int,
            ph_idx,
            ph_len,
            stress,
        ),
        !old(mem)@.can_insert(position as int) ==> r == Err::<(), SynthError>(
            SynthError::CapacityExceeded,
        ) && final(mem)@ == old(mem)@,
{
    let n = mem.phoneme_index.len();
    if n >= MAX_PHONEMES || position > n {
        return Err(SynthError::CapacityExceeded);
    }
    mem.phoneme_index.insert(position, ph_idx);
    mem.phoneme_length.insert(position, ph_len);
    mem.stress.insert(position, stress);
    Ok(())
}

} // verus!
