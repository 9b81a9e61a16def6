//! A phonetic speech synthesizer: from a string of phoneme signs to unsigned
//! eight-bit samples.

pub mod blend;
pub mod breath;
pub mod bytes;
pub mod convert;
pub mod durations;
pub mod formants;
pub mod frames;
pub mod output;
pub mod parser;
pub mod phonemes;
pub mod release;
pub mod render;
pub mod rules;
pub mod tables;

use vstd::prelude::*;
use vstd::string::StringSliceAdditionalSpecFns;
use crate::blend::frames_of;
use crate::convert::{convert_phonemes, converted};
use crate::formants::{default_params, mouth_table, throat_table, FormantTables, Params};
use crate::frames::{total_frames, MAX_FRAMES};
use crate::phonemes::{PhonemeSeq, SynthError};
use crate::render::{render, wave_of, WaveTables};

verus! {

/// What a synthesis call hands back: the samples.
pub struct SamDebugInfo {
    pub buffer: Vec<u8>,
}

/// The samples of a finished phoneme sequence under a voice, or the capacity
/// error where its durations add up to more frames than a track holds.
pub open spec fn voiced(s: PhonemeSeq, params: Params, waves: WaveTables) -> Result<
    Seq<u8>,
    SynthError,
> {
    if total_frames(s.lengths, s.len() as int) <= MAX_FRAMES {
        Ok(
            wave_of(
                frames_of(
                    s,
                    params.pitch,
                    mouth_table(params.mouth),
                    throat_table(params.throat),
                    params.singmode,
                ),
                waves,
            ),
        )
    } else {
        Err(SynthError::CapacityExceeded)
    }
}

/// What the synthesis of `input` under the voice `params` with the wave tables
/// `waves` comes to: the samples of the finished phoneme sequence, or the
/// error of the first stage that fails.
pub open spec fn synthesized(input: Seq<u8>, params: Params, waves: WaveTables) -> Result<
    Seq<u8>,
    SynthError,
> {
    match converted(input) {
        Ok(s) => voiced(s, params, waves),
        Err(e) => Err(e),
    }
}

/// The outcome of a synthesis call as a value of the model.
pub open spec fn outcome(r: Result<Vec<u8>, SynthError>) -> Result<Seq<u8>, SynthError> {
    match r {
        Ok(buffer) => Ok(buffer@),
        Err(e) => Err(e),
    }
}

/// Synthesis is a function of its input, its voice and its wave tables: two
/// calls on the same three come to the same samples, or to the same error.
pub proof fn lemma_synthesis_is_deterministic(
    input: Seq<u8>,
    params: Params,
    waves: WaveTables,
    first: Result<Vec<u8>, SynthError>,
    second: Result<Vec<u8>, SynthError>,
)
    requires
        outcome(first) == synthesized(input, params, waves),
        outcome(second) == synthesized(input, params, waves),
    ensures
        outcome(first) == outcome(second),
        first is Ok ==> second is Ok && first->Ok_0@ == second->Ok_0@,
        first is Err ==> second is Err && first->Err_0 == second->Err_0,
{
}

/// Turns a phonetic string into samples under a voice.
pub fn synthesize(input: &[u8], params: &Params, waves: &WaveTables) -> (r: Result<
    Vec<u8>,
    SynthError,
>)
    ensures
        outcome(r) == synthesized(input@, *params, *waves),
{
    match convert_phonemes(input) {
        Ok(phonemes) => {
            let formants = FormantTables::from_params(params);
            render(params, &phonemes, &formants, waves)
        },
        Err(e) => Err(e),
    }
}

/// Turns a phonetic string into samples under the default voice.
pub fn synthesize_phonetic(input: &str, waves: &WaveTables) -> (r: Result<Vec<u8>, SynthError>)
    ensures
        outcome(r) == synthesized(input.spec_bytes(), default_params(), *waves),
{
    let params = Params::default();
    synthesize(input.as_bytes(), &params, waves)
}

/// Turns a phonetic string into samples under the default voice, and hands
/// them back as a record.
pub fn synthesize_phonetic_debug(input: &str, waves: &WaveTables) -> (r: Result<
    SamDebugInfo,
    SynthError,
>)
    ensures
        match r {
            Ok(info) => Ok::<Seq<u8>, SynthError>(info.buffer@),
            Err(e) => Err::<Seq<u8>, SynthError>(e),
        } == synthesized(input.spec_bytes(), default_params(), *waves),
{
    match synthesize_phonetic(input, waves) {
        Ok(buffer) => Ok(SamDebugInfo { buffer }),
        Err(e) => Err(e),
    }
}

} // verus!
