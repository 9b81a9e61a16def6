//! The paced output buffer: batches of samples written at positions that a
//! running tick counter decides.

use vstd::prelude::*;
use crate::tables::C64_TIMETABLE;

verus! {

/// Number of ticks that one place of the output buffer stands for.
pub const TICKS_PER_BYTE: usize = 50;

/// Number of kinds of batches.
pub const BATCH_KINDS: usize = 5;

/// Largest advance of the clock that one batch can bring.
pub const MAX_ADVANCE: usize = 226;

/// Mathematical model of the output buffer.
pub struct SoundSeq {
    pub buffer: Seq<u8>,
    pub ticks: int,
    pub prev: int,
}

/// `buffer` with `batch` written from place `pos` on: the buffer grows to the
/// end of the batch where it has to, and every place that neither the buffer
/// nor the batch covers holds zero.
pub open spec fn overlaid(buffer: Seq<u8>, pos: int, batch: Seq<u8>) -> Seq<u8> {
    Seq::new(
        if buffer.len() >= pos + batch.len() {
            buffer.len()
        } else {
            (pos + batch.len()) as nat
        },
        |i: int|
            if pos <= i < pos + batch.len() {
                batch[i - pos]
            } else if i < buffer.len() {
                buffer[i]
            } else {
                0u8
            },
    )
}

/// The advance of the clock for a batch of kind `kind` after one of kind
/// `prev`.
pub open spec fn advance(prev: int, kind: int) -> int {
    if 0 <= prev < 5 && 0 <= kind < 5 {
        C64_TIMETABLE[prev][kind] as int
    } else {
        0
    }
}

impl SoundSeq {
    pub open spec fn empty() -> SoundSeq {
        SoundSeq { buffer: Seq::empty(), ticks: 0, prev: 0 }
    }

    /// The buffer after a batch of kind `kind`: the clock advances by what
    /// the timetable gives for the previous and this kind, and the batch is
    /// written at the place of the new tick count.
    pub open spec fn emitted(self, kind: int, batch: Seq<u8>) -> SoundSeq {
        let ticks = self.ticks + advance(self.prev, kind);
        SoundSeq { buffer: overlaid(self.buffer, ticks / 50, batch), ticks, prev: kind }
    }

    /// The buffer keeps pace with its clock: it is empty at tick zero, or it
    /// ends with the five samples written at the place of the clock.
    pub open spec fn paced(self) -> bool {
        0 <= self.ticks && ((self.ticks == 0 && self.buffer.len() == 0) || self.buffer.len()
            == self.ticks / 50 + 5)
    }

    /// The buffer after a batch of five equal samples.
    pub open spec fn emitted_level(self, kind: int, level: u8) -> SoundSeq {
        self.emitted(kind, seq![level, level, level, level, level])
    }
}

/// Every advance of the timetable is at most 226 ticks.
pub proof fn lemma_advance_bound(prev: int, kind: int)
    ensures
        0 <= advance(prev, kind) <= MAX_ADVANCE,
{
    if 0 <= prev < 5 && 0 <= kind < 5 {
        assert(C64_TIMETABLE[0][kind] <= 226);
        assert(C64_TIMETABLE[1][kind] <= 226);
        assert(C64_TIMETABLE[2][kind] <= 226);
        assert(C64_TIMETABLE[3][kind] <= 226);
        assert(C64_TIMETABLE[4][kind] <= 226);
    }
}

/// A batch of five samples keeps the buffer in pace with its clock, which
/// never runs backwards, and leaves at least those five samples in it.
pub proof fn lemma_emitted_is_paced(o: SoundSeq, kind: int, batch: Seq<u8>)
    requires
        o.paced(),
        batch.len() == 5,
    ensures
        o.emitted(kind, batch).paced(),
        o.emitted(kind, batch).ticks >= o.ticks,
        o.emitted(kind, batch).buffer.len() >= o.buffer.len(),
        o.emitted(kind, batch).buffer.len() >= 5,
{
    lemma_advance_bound(o.prev, kind);
}

/// The output buffer with its clock.
pub struct C64SoundBuffer {
    pub buffer: Vec<u8>,
    pub idx: usize,
    pub prev_timetable_idx: usize,
}

impl View for C64SoundBuffer {
    type V = SoundSeq;

    open spec fn view(&self) -> SoundSeq {
        SoundSeq {
            buffer: self.buffer@,
            ticks: self.idx as int,
            prev: self.prev_timetable_idx as int,
        }
    }
}

impl Default for C64SoundBuffer {
    fn default() -> (r: Self)
        ensures
            r@ == SoundSeq::empty(),
            r.wf(),
    {
        C64SoundBuffer { buffer: Vec::new(), idx: 0, prev_timetable_idx: 0 }
    }
}

impl C64SoundBuffer {
    /// The kind of the previous batch is one of the five.
    pub open spec fn wf(&self) -> bool {
        self.prev_timetable_idx < BATCH_KINDS
    }

    /// Writes a batch of five samples of kind `timetable_idx`.
    ///
    /// The clock must leave room for one advance.
    pub fn output_5(&mut self, timetable_idx: usize, array: &[u8; 5])
        requires
            old(self).wf(),
            timetable_idx < BATCH_KINDS,
            old(self).idx + MAX_ADVANCE <= usize::MAX,
        ensures
            final(self)@ == old(self)@.emitted(timetable_idx as int, array@),
            final(self).wf(),
            old(self).idx <= final(self).idx <= old(self).idx + MAX_ADVANCE,
    {
        proof {
            lemma_advance_bound(self.prev_timetable_idx as int, timetable_idx as int);
        }
        self.idx += C64_TIMETABLE[self.prev_timetable_idx][timetable_idx] as usize;
        self.prev_timetable_idx = timetable_idx;
        let pos = self.idx / TICKS_PER_BYTE;
        while self.buffer.len() < pos + 5
            invariant
                pos == self.idx / TICKS_PER_BYTE,
                pos + 5 <= usize::MAX,
                self.idx == old(self).idx + advance(
                    old(self).prev_timetable_idx as int,
                    timetable_idx as int,
                ),
                self.prev_timetable_idx == timetable_idx,
                self.buffer.len() >= old(self).buffer.len(),
                self.buffer.len() > old(self).buffer.len() ==> self.buffer.len() <= pos + 5,
                forall|i: int| 0 <= i < old(self).buffer.len() ==> self.buffer[i] == old(self).buffer[i],
                forall|i: int| old(self).buffer.len() <= i < self.buffer.len() ==> self.buffer[i] == 0,
            decreases pos + 5 - self.buffer.len(),
        {
            self.buffer.push(0);
        }
        let ghost grown = self.buffer@;
        assert(grown.len() == overlaid(old(self).buffer@, pos as int, array@).len());
        let mut j: usize = 0;
        while j < 5
            invariant
                j <= 5,
                pos == self.idx / TICKS_PER_BYTE,
                pos + 5 <= self.buffer.len(),
                self.idx == old(self).idx + advance(
                    old(self).prev_timetable_idx as int,
                    timetable_idx as int,
                ),
                self.prev_timetable_idx == timetable_idx,
                self.buffer.len() == grown.len(),
                grown.len() == overlaid(old(self).buffer@, pos as int, array@).len(),
                forall|i: int| 0 <= i < old(self).buffer.len() ==> grown[i] == old(self).buffer@[i],
                forall|i: int| old(self).buffer.len() <= i < grown.len() ==> grown[i] == 0,
                forall|i: int|
                    0 <= i < grown.len() && !(pos <= i < pos + j) ==> self.buffer@[i] == grown[i],
                forall|i: int| pos <= i < pos + j ==> self.buffer@[i] == array@[i - pos],
            decreases 5 - j,
        {
            self.buffer[pos + j] = array[j];
            j += 1;
        }
        assert forall|i: int| 0 <= i < self.buffer@.len() implies self.buffer@[i] == overlaid(
            old(self).buffer@,
            pos as int,
            array@,
        )[i] by {
            if !(pos <= i < pos + 5) {
                assert(self.buffer@[i] == grown[i]);
            }
        }
        assert(self.buffer@ =~= overlaid(old(self).buffer@, pos as int, array@));
    }

    /// Writes a batch of five samples of one level.
    pub fn output_level(&mut self, timetable_idx: usize, level: u8)
        requires
            old(self).wf(),
            timetable_idx < BATCH_KINDS,
            old(self).idx + MAX_ADVANCE <= usize::MAX,
        ensures
            final(self)@ == old(self)@.emitted_level(timetable_idx as int, level),
            final(self).wf(),
            old(self).idx <= final(self).idx <= old(self).idx + MAX_ADVANCE,
    {
        let batch: [u8; 5] = [level, level, level, level, level];
        assert(batch@ =~= seq![level, level, level, level, level]);
        self.output_5(timetable_idx, &batch);
    }
}

} // verus!
