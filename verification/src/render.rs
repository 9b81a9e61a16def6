//! The waveform renderer: sampled consonants, the three-formant oscillator,
//! and the walk over the frame track that drives both.

use vstd::prelude::*;
use crate::blend::{frames_of, mk_frames};
use crate::bytes::{add8, signed, sub8, wrap_add, wrap_sub};
use crate::formants::{FormantTables, Params};
use crate::frames::{total_frames, FrameSeq, FramesTables, MAX_FRAMES};
use crate::output::{lemma_emitted_is_paced, C64SoundBuffer, SoundSeq};
use crate::phonemes::{Phonemes, SynthError};
use crate::tables::{entry, lookup, value_at, SAMPLE_LEVELS};

verus! {

/// Largest number of ticks that one sampled consonant advances the clock by.
pub const SAMPLE_TICKS: usize = 922080;

/// The wave shapes of the oscillator and the bit patterns of the sampled
/// consonants.
pub struct WaveTables {
    /// One period of the sine of the first two formants.
    pub sine: [i8; 256],
    /// One period of the rectangle of the third formant, as signed bytes.
    pub rectangle: [u8; 256],
    /// The bit patterns of the five classes of sampled consonants.
    pub samples: [u8; 1280],
}

/// The byte of class `class` at `offset` in the sample table, zero outside the
/// table.
pub open spec fn sample_at(samples: [u8; 1280], class: u8, offset: int) -> u8 {
    entry(samples, class as int * 256 + offset)
}

/// A sample byte with its bits moved up by one place.
pub open spec fn shifted(sample: u8) -> u8 {
    ((sample as int % 128) * 2) as u8
}

/// The buffer after the first `n` bits of a voiced sample byte, highest bit
/// first: a set bit gives a batch of kind 3 at level 160, a clear bit a batch
/// of kind 4 at level 96.
pub open spec fn voiced_bits(o: SoundSeq, sample: u8, n: nat) -> SoundSeq
    decreases n,
{
    if n == 0 {
        o
    } else if sample >= 128 {
        voiced_bits(o.emitted_level(3, 160), shifted(sample), (n - 1) as nat)
    } else {
        voiced_bits(o.emitted_level(4, 96), shifted(sample), (n - 1) as nat)
    }
}

/// The buffer after a voiced consonant whose counter stands at `phase`: one
/// sample byte for each step of the counter until it wraps, read from
/// `offset` on.
pub open spec fn voiced_burst(
    o: SoundSeq,
    samples: [u8; 1280],
    class: u8,
    phase: int,
    offset: int,
) -> SoundSeq
    decreases 256 - phase,
{
    if 1 <= phase < 256 {
        voiced_burst(
            voiced_bits(o, sample_at(samples, class, offset), 8),
            samples,
            class,
            phase + 1,
            offset + 1,
        )
    } else {
        o
    }
}

/// The buffer after one bit of an unvoiced sample byte: a set bit gives a
/// batch of kind 2 at level 80; a clear bit gives a batch of kind 1 at the
/// low four bits of the class level, followed by the batch of kind 2 only
/// where the class level is zero.
pub open spec fn unvoiced_bit(o: SoundSeq, set: bool, level: u8) -> SoundSeq {
    if set {
        o.emitted_level(2, 80)
    } else if level == 0 {
        o.emitted_level(1, level % 16).emitted_level(2, 80)
    } else {
        o.emitted_level(1, level % 16)
    }
}

/// The buffer after the first `n` bits of an unvoiced sample byte, highest bit
/// first.
pub open spec fn unvoiced_bits(o: SoundSeq, sample: u8, level: u8, n: nat) -> SoundSeq
    decreases n,
{
    if n == 0 {
        o
    } else {
        unvoiced_bits(unvoiced_bit(o, sample >= 128, level), shifted(sample), level, (n - 1) as nat)
    }
}

/// The buffer after an unvoiced consonant: one sample byte for each offset
/// from `offset` until the offset wraps.
pub open spec fn unvoiced_burst(
    o: SoundSeq,
    samples: [u8; 1280],
    class: u8,
    level: u8,
    offset: int,
) -> SoundSeq
    decreases 256 - offset,
{
    if 1 <= offset < 256 {
        unvoiced_burst(
            unvoiced_bits(o, sample_at(samples, class, offset), level, 8),
            samples,
            class,
            level,
            offset + 1,
        )
    } else {
        o
    }
}

/// The class of sampled consonant that a selector names: its low three bits
/// less one, as a byte.
pub open spec fn class_of(flag: u8) -> u8 {
    wrap_sub(flag & 7, 1)
}

/// The buffer after the sampled consonant of frame `frame`. A selector with one
/// of its upper five bits set gives an unvoiced consonant, whose first offset is
/// the complement of those bits; any other selector gives a voiced consonant,
/// whose counter starts at the complement of the upper four bits of the pitch.
pub open spec fn sample_rendered(f: FrameSeq, samples: [u8; 1280], frame: int, o: SoundSeq)
    -> SoundSeq {
    let flag = value_at(f.sampled_consonant_flag, frame);
    let class = class_of(flag);
    if flag & 248 == 0 {
        voiced_burst(o, samples, class, ((value_at(f.pitches, frame) >> 4) ^ 255) as int, 0)
    } else {
        unvoiced_burst(
            o,
            samples,
            class,
            entry(SAMPLE_LEVELS, class as int),
            ((flag & 248) ^ 255) as int,
        )
    }
}

fn shift(sample: u8) -> (r: u8)
    ensures
        r == shifted(sample),
{
    (sample % 128) * 2
}

fn read_sample(waves: &WaveTables, class: u8, offset: usize) -> (r: u8)
    requires
        offset <= 256,
    ensures
        r == sample_at(waves.samples, class, offset as int),
{
    lookup(&waves.samples, class as usize * 256 + offset)
}

fn render_voiced_bits(sample: u8, out: &mut C64SoundBuffer)
    requires
        old(out).wf(),
        old(out).idx + 1808 <= usize::MAX,
    ensures
        final(out)@ == voiced_bits(old(out)@, sample, 8),
        final(out).wf(),
        old(out).idx <= final(out).idx <= old(out).idx + 1808,
{
    let ghost goal = voiced_bits(out@, sample, 8);
    let mut rest = sample;
    let mut bit: usize = 8;
    while bit > 0
        invariant
            bit <= 8,
            out.wf(),
            old(out).idx <= out.idx <= old(out).idx + (8 - bit) * 226,
            old(out).idx + 1808 <= usize::MAX,
            voiced_bits(out@, rest, bit as nat) == goal,
        decreases bit,
    {
        if rest >= 128 {
            out.output_level(3, 160);
        } else {
            out.output_level(4, 96);
        }
        rest = shift(rest);
        bit -= 1;
    }
}

fn render_unvoiced_bits(sample: u8, level: u8, out: &mut C64SoundBuffer)
    requires
        old(out).wf(),
        old(out).idx + 3616 <= usize::MAX,
    ensures
        final(out)@ == unvoiced_bits(old(out)@, sample, level, 8),
        final(out).wf(),
        old(out).idx <= final(out).idx <= old(out).idx + 3616,
{
    let ghost goal = unvoiced_bits(out@, sample, level, 8);
    let mut rest = sample;
    let mut bit: usize = 8;
    while bit > 0
        invariant
            bit <= 8,
            out.wf(),
            old(out).idx <= out.idx <= old(out).idx + (8 - bit) * 452,
            old(out).idx + 3616 <= usize::MAX,
            unvoiced_bits(out@, rest, level, bit as nat) == goal,
        decreases bit,
    {
        if rest >= 128 {
            out.output_level(2, 80);
        } else {
            out.output_level(1, level % 16);
            if level == 0 {
                out.output_level(2, 80);
            }
        }
        rest = shift(rest);
        bit -= 1;
    }
}

/// Renders the sampled consonant of frame `frame_idx` into the output buffer.
///
/// The clock must leave room for the longest consonant.
pub fn render_sample(
    frame_idx: usize,
    frames: &FramesTables,
    waves: &WaveTables,
    output_buffer: &mut C64SoundBuffer,
)
    requires
        old(output_buffer).wf(),
        old(output_buffer).idx + SAMPLE_TICKS <= usize::MAX,
    ensures
        final(output_buffer)@ == sample_rendered(
            frames@,
            waves.samples,
            frame_idx as int,
            old(output_buffer)@,
        ),
        final(output_buffer).wf(),
        old(output_buffer).idx <= final(output_buffer).idx <= old(output_buffer).idx
            + SAMPLE_TICKS,
{
    let consonant_flag = if frame_idx < frames.sampled_consonant_flag.len() {
        frames.sampled_consonant_flag[frame_idx]
    } else {
        0
    };
    let class = sub8(consonant_flag & 7, 1);
    let ghost goal = sample_rendered(frames@, waves.samples, frame_idx as int, output_buffer@);
    if consonant_flag & 248 == 0 {
        let pitch = if frame_idx < frames.pitches.len() {
            frames.pitches[frame_idx]
        } else {
            0
        };
        let first: usize = ((pitch >> 4) ^ 255) as usize;
        if first == 0 {
            return ;
        }
        let mut phase: usize = first;
        let mut offset: usize = 0;
        while phase < 256
            invariant
                1 <= first <= phase <= 256,
                offset == phase - first,
                output_buffer.wf(),
                old(output_buffer).idx <= output_buffer.idx <= old(output_buffer).idx + offset
                    * 1808,
                old(output_buffer).idx + 922080 <= usize::MAX,
                voiced_burst(
                    output_buffer@,
                    waves.samples,
                    class,
                    phase as int,
                    offset as int,
                ) == goal,
            decreases 256 - phase,
        {
            let sample = read_sample(waves, class, offset);
            render_voiced_bits(sample, output_buffer);
            phase += 1;
            offset += 1;
        }
    } else {
        let level = lookup(&SAMPLE_LEVELS, class as usize);
        let first: usize = ((consonant_flag & 248) ^ 255) as usize;
        if first == 0 {
            return ;
        }
        let mut offset: usize = first;
        while offset < 256
            invariant
                1 <= first <= offset <= 256,
                output_buffer.wf(),
                old(output_buffer).idx <= output_buffer.idx <= old(output_buffer).idx + (offset
                    - first) * 3616,
                old(output_buffer).idx + 922080 <= usize::MAX,
                unvoiced_burst(output_buffer@, waves.samples, class, level, offset as int)
                    == goal,
            decreases 256 - offset,
        {
            let sample = read_sample(waves, class, offset);
            render_unvoiced_bits(sample, level, output_buffer);
            offset += 1;
        }
    }
}

/// The place in a wave table that a formant of frequency `frequency` stands
/// at for sample `j` of a batch, when the batch starts at phase `phase`: each
/// sample moves on by a quarter of the frequency.
pub open spec fn table_position(phase: u8, frequency: u8, j: int) -> int {
    ((phase as int * 256 + j * (frequency as int * 64)) / 256) % 256
}

/// A mixed sample as an output byte: a thirty-second of the sum, rounded
/// towards zero, on a bias of 128, wrapped to a byte.
pub open spec fn mixed(sum: int) -> u8 {
    let part = if sum >= 0 {
        sum / 32
    } else {
        -((-sum) / 32)
    };
    ((part + 384) % 256) as u8
}

/// The state of the walk over the frame track.
#[derive(Clone, Copy, Debug, PartialEq, Eq, Structural)]
pub struct RenderState {
    pub phase1: u8,
    pub phase2: u8,
    pub phase3: u8,
    pub glottal: u8,
    pub voiced: u8,
}

/// The sum of the three formants for sample `j` of the batch of a frame: the
/// two sines and the rectangle, each weighted by the low four bits of its
/// amplitude.
pub open spec fn oscillator_sum(f: FrameSeq, w: WaveTables, frame: int, st: RenderState, j: int)
    -> int {
    w.sine[table_position(st.phase1, f.frequency1[frame], j)] as int * (f.amplitude1[frame]
        % 16) as int + w.sine[table_position(st.phase2, f.frequency2[frame], j)] as int * (
    f.amplitude2[frame] % 16) as int + signed(
        w.rectangle[table_position(st.phase3, f.frequency3[frame], j)],
    ) * (f.amplitude3[frame] % 16) as int
}

/// The batch of five oscillator samples of a frame.
pub open spec fn oscillated(f: FrameSeq, w: WaveTables, frame: int, st: RenderState) -> Seq<u8> {
    Seq::new(5, |j: int| mixed(oscillator_sum(f, w, frame, st, j)))
}

/// The state at the start of a glottal pulse at frame `frame`: the pulse
/// length is the pitch of the frame, its voiced part three quarters of that,
/// and the three phases are zero.
pub open spec fn reloaded(f: FrameSeq, frame: int) -> RenderState {
    let pulse = value_at(f.pitches, frame);
    RenderState {
        phase1: 0,
        phase2: 0,
        phase3: 0,
        glottal: pulse,
        voiced: wrap_sub(pulse, pulse / 4),
    }
}

/// The output buffer after the walk from frame `frame` in state `st` to the
/// end of the track.
///
/// Each step renders the frame it stands at: a frame whose selector has one of
/// its upper five bits set as a sampled consonant that takes two frames, any
/// other as one oscillator batch that takes one. The walk ends behind the last
/// frame. Otherwise, with an empty pulse the state is reloaded at the next
/// frame; with a pulse running its voiced part is counted down, and either the
/// phases move on by the frequencies of the next frame, or, where the voiced
/// part has run out or the rendered frame has a selector, the sampled consonant
/// of the next frame is rendered and the state reloaded.
pub open spec fn rendered(f: FrameSeq, w: WaveTables, frame: int, st: RenderState, o: SoundSeq)
    -> SoundSeq
    decreases f.len() - frame,
{
    if 0 <= frame < f.len() {
        let flag = value_at(f.sampled_consonant_flag, frame);
        let consonant = flag & 248 != 0;
        let out = if consonant {
            sample_rendered(f, w.samples, frame, o)
        } else {
            o.emitted(0, oscillated(f, w, frame, st))
        };
        let next = if consonant {
            frame + 2
        } else {
            frame + 1
        };
        let voiced = wrap_sub(st.voiced, 1);
        if next >= f.len() {
            out
        } else if st.glottal == 0 {
            rendered(f, w, next, reloaded(f, next), out)
        } else if voiced != 0 && flag == 0 {
            rendered(
                f,
                w,
                next,
                RenderState {
                    phase1: wrap_add(st.phase1, value_at(f.frequency1, next)),
                    phase2: wrap_add(st.phase2, value_at(f.frequency2, next)),
                    phase3: wrap_add(st.phase3, value_at(f.frequency3, next)),
                    glottal: st.glottal,
                    voiced,
                },
                out,
            )
        } else {
            rendered(f, w, next, reloaded(f, next), sample_rendered(f, w.samples, next, out))
        }
    } else {
        o
    }
}

/// The samples of a frame track: the buffer after the walk from its first
/// frame, with an empty buffer and a fresh pulse.
pub open spec fn wave_of(f: FrameSeq, w: WaveTables) -> Seq<u8> {
    rendered(f, w, 0, reloaded(f, 0), SoundSeq::empty()).buffer
}

/// Whether `after` can follow `before` in a rendering: it keeps pace with its
/// clock and has lost no sample.
pub open spec fn follows(before: SoundSeq, after: SoundSeq) -> bool {
    after.paced() && after.buffer.len() >= before.buffer.len()
}

proof fn lemma_voiced_bits_follow(o: SoundSeq, sample: u8, n: nat)
    requires
        o.paced(),
    ensures
        follows(o, voiced_bits(o, sample, n)),
        n > 0 ==> voiced_bits(o, sample, n).buffer.len() >= 5,
    decreases n,
{
    if n > 0 {
        let next = if sample >= 128 {
            o.emitted_level(3, 160)
        } else {
            o.emitted_level(4, 96)
        };
        lemma_emitted_is_paced(o, 3, seq![160u8, 160u8, 160u8, 160u8, 160u8]);
        lemma_emitted_is_paced(o, 4, seq![96u8, 96u8, 96u8, 96u8, 96u8]);
        lemma_voiced_bits_follow(next, shifted(sample), (n - 1) as nat);
    }
}

proof fn lemma_voiced_burst_follows(
    o: SoundSeq,
    samples: [u8; 1280],
    class: u8,
    phase: int,
    offset: int,
)
    requires
        o.paced(),
    ensures
        follows(o, voiced_burst(o, samples, class, phase, offset)),
        1 <= phase < 256 ==> voiced_burst(o, samples, class, phase, offset).buffer.len() >= 5,
    decreases 256 - phase,
{
    if 1 <= phase < 256 {
        let next = voiced_bits(o, sample_at(samples, class, offset), 8);
        lemma_voiced_bits_follow(o, sample_at(samples, class, offset), 8);
        lemma_voiced_burst_follows(next, samples, class, phase + 1, offset + 1);
    }
}

proof fn lemma_unvoiced_bits_follow(o: SoundSeq, sample: u8, level: u8, n: nat)
    requires
        o.paced(),
    ensures
        follows(o, unvoiced_bits(o, sample, level, n)),
        n > 0 ==> unvoiced_bits(o, sample, level, n).buffer.len() >= 5,
    decreases n,
{
    if n > 0 {
        let low = (level % 16) as u8;
        let one = o.emitted_level(1, low);
        lemma_emitted_is_paced(o, 2, seq![80u8, 80u8, 80u8, 80u8, 80u8]);
        lemma_emitted_is_paced(o, 1, seq![low, low, low, low, low]);
        lemma_emitted_is_paced(one, 2, seq![80u8, 80u8, 80u8, 80u8, 80u8]);
        lemma_unvoiced_bits_follow(
            unvoiced_bit(o, sample >= 128, level),
            shifted(sample),
            level,
            (n - 1) as nat,
        );
    }
}

proof fn lemma_unvoiced_burst_follows(
    o: SoundSeq,
    samples: [u8; 1280],
    class: u8,
    level: u8,
    offset: int,
)
    requires
        o.paced(),
    ensures
        follows(o, unvoiced_burst(o, samples, class, level, offset)),
        1 <= offset < 256 ==> unvoiced_burst(o, samples, class, level, offset).buffer.len() >= 5,
    decreases 256 - offset,
{
    if 1 <= offset < 256 {
        let next = unvoiced_bits(o, sample_at(samples, class, offset), level, 8);
        lemma_unvoiced_bits_follow(o, sample_at(samples, class, offset), level, 8);
        lemma_unvoiced_burst_follows(next, samples, class, level, offset + 1);
    }
}

/// A sampled consonant keeps the buffer in pace with its clock and takes no
/// sample away; an unvoiced one leaves at least one batch.
pub proof fn lemma_sample_rendered_follows(
    f: FrameSeq,
    samples: [u8; 1280],
    frame: int,
    o: SoundSeq,
)
    requires
        o.paced(),
    ensures
        follows(o, sample_rendered(f, samples, frame, o)),
        value_at(f.sampled_consonant_flag, frame) & 248 != 0 ==> sample_rendered(
            f,
            samples,
            frame,
            o,
        ).buffer.len() >= 5,
{
    let flag = value_at(f.sampled_consonant_flag, frame);
    let class = class_of(flag);
    let pitch = value_at(f.pitches, frame);
    lemma_voiced_burst_follows(o, samples, class, ((pitch >> 4) ^ 255) as int, 0);
    lemma_unvoiced_burst_follows(
        o,
        samples,
        class,
        entry(SAMPLE_LEVELS, class as int),
        ((flag & 248) ^ 255) as int,
    );
    assert(flag & 248 != 0 ==> 1 <= (flag & 248) ^ 255) by (bit_vector);
}

proof fn lemma_rendered_follows(f: FrameSeq, w: WaveTables, frame: int, st: RenderState, o: SoundSeq)
    requires
        o.paced(),
    ensures
        follows(o, rendered(f, w, frame, st, o)),
        0 <= frame < f.len() ==> rendered(f, w, frame, st, o).buffer.len() >= 5,
    decreases f.len() - frame,
{
    if 0 <= frame < f.len() {
        let flag = value_at(f.sampled_consonant_flag, frame);
        let consonant = flag & 248 != 0;
        let out = if consonant {
            sample_rendered(f, w.samples, frame, o)
        } else {
            o.emitted(0, oscillated(f, w, frame, st))
        };
        let next = if consonant {
            frame + 2
        } else {
            frame + 1
        };
        lemma_sample_rendered_follows(f, w.samples, frame, o);
        lemma_emitted_is_paced(o, 0, oscillated(f, w, frame, st));
        let voiced = wrap_sub(st.voiced, 1);
        if next >= f.len() {
        } else if st.glottal == 0 {
            lemma_rendered_follows(f, w, next, reloaded(f, next), out);
        } else if voiced != 0 && flag == 0 {
            lemma_rendered_follows(
                f,
                w,
                next,
                RenderState {
                    phase1: wrap_add(st.phase1, value_at(f.frequency1, next)),
                    phase2: wrap_add(st.phase2, value_at(f.frequency2, next)),
                    phase3: wrap_add(st.phase3, value_at(f.frequency3, next)),
                    glottal: st.glottal,
                    voiced,
                },
                out,
            );
        } else {
            lemma_sample_rendered_follows(f, w.samples, next, out);
            lemma_rendered_follows(
                f,
                w,
                next,
                reloaded(f, next),
                sample_rendered(f, w.samples, next, out),
            );
        }
    }
}

/// The samples of a track keep pace with the clock of the rendering: a track
/// without frames gives no sample, and any other gives as many samples as the
/// last tick count holds places of fifty ticks, and five more for the last
/// batch.
pub proof fn lemma_wave_is_paced(f: FrameSeq, w: WaveTables)
    ensures
        rendered(f, w, 0, reloaded(f, 0), SoundSeq::empty()).paced(),
        f.len() == 0 ==> wave_of(f, w).len() == 0,
        f.len() > 0 ==> wave_of(f, w).len() == rendered(
            f,
            w,
            0,
            reloaded(f, 0),
            SoundSeq::empty(),
        ).ticks / 50 + 5,
{
    lemma_rendered_follows(f, w, 0, reloaded(f, 0), SoundSeq::empty());
}

fn weigh(sample: i32, amplitude: u8) -> (r: i32)
    requires
        -128 <= sample <= 127,
    ensures
        r == sample * (amplitude % 16) as int,
        -1920 <= r <= 1905,
{
    let weight: i32 = (amplitude % 16) as i32;
    assert(-1920 <= sample * weight <= 1905) by (nonlinear_arith)
        requires
            -128 <= sample <= 127,
            0 <= weight <= 15,
    ;
    sample * weight
}

fn position(phase: u8, frequency: u8, j: usize) -> (r: usize)
    requires
        j < 5,
    ensures
        r == table_position(phase, frequency, j as int),
        r < 256,
{
    let step: usize = frequency as usize * 64;
    assert(j * step <= 4 * 16320) by (nonlinear_arith)
        requires
            j <= 4,
            step <= 16320,
    ;
    ((phase as usize * 256 + j * step) / 256) % 256
}

fn mix(sum: i32) -> (r: u8)
    requires
        -6000 <= sum <= 6000,
    ensures
        r == mixed(sum as int),
{
    let part: i32 = if sum >= 0 {
        sum / 32
    } else {
        -((-sum) / 32)
    };
    (((part + 384) as u32) % 256) as u8
}

fn oscillator_sample(
    frames: &FramesTables,
    waves: &WaveTables,
    i: usize,
    st: &RenderState,
    j: usize,
) -> (r: u8)
    requires
        frames.wf(),
        i < frames@.len(),
        j < 5,
    ensures
        r == mixed(oscillator_sum(frames@, *waves, i as int, *st, j as int)),
{
    let sine1 = waves.sine[position(st.phase1, frames.frequency1[i], j)] as i32;
    let sine2 = waves.sine[position(st.phase2, frames.frequency2[i], j)] as i32;
    let byte3 = waves.rectangle[position(st.phase3, frames.frequency3[i], j)];
    let rect3: i32 = if byte3 < 128 {
        byte3 as i32
    } else {
        byte3 as i32 - 256
    };
    let sum = weigh(sine1, frames.amplitude1[i]) + weigh(sine2, frames.amplitude2[i]) + weigh(
        rect3,
        frames.amplitude3[i],
    );
    mix(sum)
}

fn oscillate(frames: &FramesTables, waves: &WaveTables, i: usize, st: &RenderState) -> (r: [u8; 5])
    requires
        frames.wf(),
        i < frames@.len(),
    ensures
        r@ == oscillated(frames@, *waves, i as int, *st),
{
    let batch: [u8; 5] = [
        oscillator_sample(frames, waves, i, st, 0),
        oscillator_sample(frames, waves, i, st, 1),
        oscillator_sample(frames, waves, i, st, 2),
        oscillator_sample(frames, waves, i, st, 3),
        oscillator_sample(frames, waves, i, st, 4),
    ];
    assert(batch@ =~= oscillated(frames@, *waves, i as int, *st));
    batch
}

fn reload(frames: &FramesTables, frame: usize) -> (r: RenderState)
    ensures
        r == reloaded(frames@, frame as int),
{
    let pulse = if frame < frames.pitches.len() {
        frames.pitches[frame]
    } else {
        0
    };
    RenderState {
        phase1: 0,
        phase2: 0,
        phase3: 0,
        glottal: pulse,
        voiced: sub8(pulse, pulse / 4),
    }
}

/// Renders a frame track into samples. A track without frames gives no
/// sample, any other at least one batch of five.
pub fn mk_wav(frames: &FramesTables, waves: &WaveTables) -> (r: Vec<u8>)
    requires
        frames.wf(),
    ensures
        r@ == wave_of(frames@, *waves),
        frames@.len() == 0 ==> r@.len() == 0,
        frames@.len() > 0 ==> r@.len() >= 5,
{
    proof {
        lemma_wave_is_paced(frames@, *waves);
    }
    let total = frames.len();
    let mut out = C64SoundBuffer::default();
    let mut st = reload(frames, 0);
    let mut frame: usize = 0;
    let ghost goal = rendered(frames@, *waves, 0, st, out@);
    while frame < total
        invariant
            frames.wf(),
            total == frames@.len(),
            out.wf(),
            out.idx <= frame * 1844386,
            rendered(frames@, *waves, frame as int, st, out@) == goal,
        decreases total - frame,
    {
        let flag = frames.sampled_consonant_flag[frame];
        let next: usize;
        if flag & 248 != 0 {
            render_sample(frame, frames, waves, &mut out);
            next = frame + 2;
        } else {
            let batch = oscillate(frames, waves, frame, &st);
            out.output_5(0, &batch);
            next = frame + 1;
        }
        if next >= total {
            frame = total;
        } else if st.glottal == 0 {
            st = reload(frames, next);
            frame = next;
        } else {
            let voiced = sub8(st.voiced, 1);
            if voiced != 0 && flag == 0 {
                st = RenderState {
                    phase1: add8(st.phase1, frames.frequency1[next]),
                    phase2: add8(st.phase2, frames.frequency2[next]),
                    phase3: add8(st.phase3, frames.frequency3[next]),
                    glottal: st.glottal,
                    voiced,
                };
            } else {
                render_sample(next, frames, waves, &mut out);
                st = reload(frames, next);
            }
            frame = next;
        }
    }
    out.buffer
}

/// Turns a phoneme buffer into samples: builds the frame track of the buffer
/// under the voice and renders it.
///
/// Fails where the durations add up to more than the frame track holds.
pub fn render(
    params: &Params,
    phonemes: &Phonemes,
    formants: &FormantTables,
    waves: &WaveTables,
) -> (r: Result<Vec<u8>, SynthError>)
    requires
        phonemes.wf(),
    ensures
        total_frames(phonemes@.lengths, phonemes@.len() as int) <= MAX_FRAMES ==> r.is_ok()
            && r.unwrap()@ == wave_of(
            frames_of(
                phonemes@,
                params.pitch,
                formants.mouth@,
                formants.throat@,
                params.singmode,
            ),
            *waves,
        ),
        total_frames(phonemes@.lengths, phonemes@.len() as int) > MAX_FRAMES ==> r == Err::<
            Vec<u8>,
            SynthError,
        >(SynthError::CapacityExceeded),
{
    match mk_frames(params, phonemes, formants) {
        Ok(frames) => Ok(mk_wav(&frames, waves)),
        Err(e) => Err(e),
    }
}

} // verus!
