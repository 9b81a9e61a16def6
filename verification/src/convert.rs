//! The chain from a phonetic string to the finished phoneme sequence.

use vstd::prelude::*;
use crate::breath::{breath_inserted, delete_errors, insert_breath, pruned};
use crate::durations::{set_phoneme_length, with_durations};
use crate::parser::{parse_1, parsed};
use crate::phonemes::{PhonemeSeq, Phonemes, SynthError};
use crate::release::{code41240, released_from};
use crate::rules::{copy_stress, parse_2, rewritten_from, stress_copied};

verus! {

/// The result of a pass that can only run out of room.
pub open spec fn or_capacity(model: Option<PhonemeSeq>) -> Result<PhonemeSeq, SynthError> {
    match model {
        Some(s) => Ok(s),
        None => Err(SynthError::CapacityExceeded),
    }
}

/// The finished phoneme sequence of a parsed one: rewritten into allophones,
/// with stress passed on, durations set, stops released, cut at the first id
/// outside the inventory, and with breath marks inserted.
pub open spec fn finished_phonemes(s: PhonemeSeq) -> Result<PhonemeSeq, SynthError> {
    match rewritten_from(s, 0) {
        Some(rewritten) => match released_from(with_durations(stress_copied(rewritten)), 0) {
            Some(released) => or_capacity(breath_inserted(pruned(released))),
            None => Err(SynthError::CapacityExceeded),
        },
        None => Err(SynthError::CapacityExceeded),
    }
}

/// The finished phoneme sequence of a phonetic string, or the error that
/// parsing it or one of the passes ends in.
pub open spec fn converted(input: Seq<u8>) -> Result<PhonemeSeq, SynthError> {
    match parsed(input) {
        Ok(s) => finished_phonemes(s),
        Err(e) => Err(e),
    }
}

/// Parses a phonetic string and runs the rule chain over it.
///
/// Fails with the error of the parser, or with the capacity error where a
/// pass has to insert a phoneme into a full buffer.
pub fn convert_phonemes(phonetic: &[u8]) -> (r: Result<Phonemes, SynthError>)
    ensures
        match converted(phonetic@) {
            Ok(s) => r.is_ok() && r.unwrap()@ == s && r.unwrap().wf(),
            Err(e) => r is Err && r->Err_0 == e,
        },
{
    let mut mem = Phonemes::default();
    match parse_1(&mut mem, phonetic) {
        Ok(()) => {},
        Err(e) => {
            return Err(e);
        },
    }
    match parse_2(&mut mem) {
        Ok(()) => {},
        Err(e) => {
            return Err(e);
        },
    }
    copy_stress(&mut mem);
    set_phoneme_length(&mut mem);
    match code41240(&mut mem) {
        Ok(()) => {},
        Err(e) => {
            return Err(e);
        },
    }
    delete_errors(&mut mem);
    match insert_breath(&mut mem) {
        Ok(()) => {},
        Err(e) => {
            return Err(e);
        },
    }
    Ok(mem)
}

} // verus!
