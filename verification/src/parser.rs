//! The tokenizer: from the signs of the phonetic notation to phoneme ids with
//! their stress.

use vstd::prelude::*;
use crate::phonemes::{PhonemeSeq, Phonemes, SynthError, MAX_PHONEMES};
use crate::tables::{SIGN_COUNT, SIGN_INPUT_TABLE_1, SIGN_INPUT_TABLE_2};

verus! {

/// The character that stands for "no second character" in the sign table.
pub const WILDCARD: u8 = 42;

/// Whether the phoneme `t` is written with the two characters `a` and `b`.
pub open spec fn is_pair_sign(t: int, a: u8, b: u8) -> bool {
    0 <= t < SIGN_COUNT && SIGN_INPUT_TABLE_1[t] == a && SIGN_INPUT_TABLE_2[t] == b && b
        != WILDCARD
}

/// Whether the phoneme `t` is written with the one character `a`.
pub open spec fn is_single_sign(t: int, a: u8) -> bool {
    0 <= t < SIGN_COUNT && SIGN_INPUT_TABLE_1[t] == a && SIGN_INPUT_TABLE_2[t] == WILDCARD
}

/// The first phoneme from `t` on that is written `a`, `b`; the size of the
/// table where there is none.
pub open spec fn pair_match(a: u8, b: u8, t: int) -> int
    decreases SIGN_COUNT - t,
{
    if 0 <= t < SIGN_COUNT && !is_pair_sign(t, a, b) {
        pair_match(a, b, t + 1)
    } else {
        t
    }
}

/// The first phoneme from `t` on that is written `a`; the size of the table
/// where there is none.
pub open spec fn single_match(a: u8, t: int) -> int
    decreases SIGN_COUNT - t,
{
    if 0 <= t < SIGN_COUNT && !is_single_sign(t, a) {
        single_match(a, t + 1)
    } else {
        t
    }
}

/// The stress that a character marks: the value of a digit from 1 to 8, zero
/// for any other character.
pub open spec fn stress_of(c: u8) -> u8 {
    if 49 <= c <= 56 {
        (c - 48) as u8
    } else {
        0
    }
}

/// The sequence with a phoneme added at its end, without duration or stress.
pub open spec fn emitted(s: PhonemeSeq, id: u8) -> PhonemeSeq {
    PhonemeSeq { ids: s.ids.push(id), lengths: s.lengths.push(0), stress: s.stress.push(0) }
}

/// The result of parsing the input from position `i` on, with `s` parsed so
/// far.
///
/// At each position a sign of two characters is tried first, then a sign of
/// one character, then a stress digit, which sets the stress of the phoneme
/// parsed last. A character that is none of these is an error at its
/// position; so is a stress digit before any phoneme. A phoneme that finds the
/// sequence full is a capacity error.
pub open spec fn parsed_from(input: Seq<u8>, i: int, s: PhonemeSeq) -> Result<
    PhonemeSeq,
    SynthError,
>
    decreases input.len() - i,
{
    if 0 <= i < input.len() {
        let pair = if i + 1 < input.len() {
            pair_match(input[i], input[i + 1], 0)
        } else {
            SIGN_COUNT as int
        };
        let single = single_match(input[i], 0);
        if pair < SIGN_COUNT {
            if s.ids.len() < MAX_PHONEMES {
                parsed_from(input, i + 2, emitted(s, pair as u8))
            } else {
                Err(SynthError::CapacityExceeded)
            }
        } else if single < SIGN_COUNT {
            if s.ids.len() < MAX_PHONEMES {
                parsed_from(input, i + 1, emitted(s, single as u8))
            } else {
                Err(SynthError::CapacityExceeded)
            }
        } else if stress_of(input[i]) != 0 && s.ids.len() > 0 {
            parsed_from(input, i + 1, s.with_stress(s.ids.len() - 1, stress_of(input[i])))
        } else {
            Err(SynthError::ParseError { byte: input[i], offset: i as usize })
        }
    } else {
        Ok(s)
    }
}

/// The phoneme sequence that an input is parsed into.
pub open spec fn parsed(input: Seq<u8>) -> Result<PhonemeSeq, SynthError> {
    parsed_from(input, 0, PhonemeSeq::empty())
}

/// The sequence of `n` pauses without duration or stress.
pub open spec fn pauses(n: nat) -> PhonemeSeq {
    PhonemeSeq {
        ids: Seq::new(n, |i: int| 0u8),
        lengths: Seq::new(n, |i: int| 0u8),
        stress: Seq::new(n, |i: int| 0u8),
    }
}

proof fn lemma_space_is_the_pause()
    ensures
        pair_match(32, 32, 0) == SIGN_COUNT,
        single_match(32, 0) == 0,
{
    reveal_with_fuel(pair_match, 82);
}

proof fn lemma_blank_rest_parses_to_pauses(input: Seq<u8>, i: int)
    requires
        forall|j: int| 0 <= j < input.len() ==> input[j] == 32,
        input.len() <= MAX_PHONEMES,
        0 <= i <= input.len(),
    ensures
        parsed_from(input, i, pauses(i as nat)) == Ok::<PhonemeSeq, SynthError>(
            pauses(input.len()),
        ),
    decreases input.len() - i,
{
    if i < input.len() {
        lemma_space_is_the_pause();
        let next = emitted(pauses(i as nat), 0);
        assert(next.ids =~= pauses((i + 1) as nat).ids);
        assert(next.lengths =~= pauses((i + 1) as nat).lengths);
        assert(next.stress =~= pauses((i + 1) as nat).stress);
        lemma_blank_rest_parses_to_pauses(input, i + 1);
    }
}

/// An input without a character parses into the empty sequence, and an input
/// of spaces alone into as many pauses as it has spaces.
pub proof fn lemma_blank_input_parses_to_pauses(input: Seq<u8>)
    requires
        forall|j: int| 0 <= j < input.len() ==> input[j] == 32,
        input.len() <= MAX_PHONEMES,
    ensures
        parsed(input) == Ok::<PhonemeSeq, SynthError>(pauses(input.len())),
        input.len() == 0 ==> parsed(input) == Ok::<PhonemeSeq, SynthError>(PhonemeSeq::empty()),
{
    assert(pauses(0).ids =~= PhonemeSeq::empty().ids);
    assert(pauses(0).lengths =~= PhonemeSeq::empty().lengths);
    assert(pauses(0).stress =~= PhonemeSeq::empty().stress);
    lemma_blank_rest_parses_to_pauses(input, 0);
}

proof fn lemma_digit_starts_no_sign(digit: u8, b: u8)
    requires
        49 <= digit <= 56,
    ensures
        pair_match(digit, b, 0) == SIGN_COUNT,
        single_match(digit, 0) == SIGN_COUNT,
{
    reveal_with_fuel(pair_match, 82);
    reveal_with_fuel(single_match, 82);
}

/// A stress digit behind a phoneme adds no entry: it becomes the stress of the
/// phoneme parsed last, and parsing goes on behind it.
pub proof fn lemma_stress_digit_attaches(input: Seq<u8>, i: int, s: PhonemeSeq)
    requires
        0 <= i < input.len(),
        49 <= input[i] <= 56,
        s.ids.len() > 0,
    ensures
        parsed_from(input, i, s) == parsed_from(
            input,
            i + 1,
            s.with_stress(s.ids.len() - 1, (input[i] - 48) as u8),
        ),
        s.with_stress(s.ids.len() - 1, (input[i] - 48) as u8).ids == s.ids,
{
    if i + 1 < input.len() {
        lemma_digit_starts_no_sign(input[i], input[i + 1]);
    } else {
        lemma_digit_starts_no_sign(input[i], 0);
    }
}

fn find_pair(a: u8, b: u8) -> (r: usize)
    ensures
        r == pair_match(a, b, 0),
        r <= SIGN_COUNT,
{
    let mut t: usize = 0;
    while t < SIGN_COUNT && !(SIGN_INPUT_TABLE_1[t] == a && SIGN_INPUT_TABLE_2[t] == b && b
        != WILDCARD)
        invariant
            t <= SIGN_COUNT,
            pair_match(a, b, t as int) == pair_match(a, b, 0),
        decreases SIGN_COUNT - t,
    {
        t += 1;
    }
    t
}

fn find_single(a: u8) -> (r: usize)
    ensures
        r == single_match(a, 0),
        r <= SIGN_COUNT,
{
    let mut t: usize = 0;
    while t < SIGN_COUNT && !(SIGN_INPUT_TABLE_1[t] == a && SIGN_INPUT_TABLE_2[t] == WILDCARD)
        invariant
            t <= SIGN_COUNT,
            single_match(a, t as int) == single_match(a, 0),
        decreases SIGN_COUNT - t,
    {
        t += 1;
    }
    t
}

fn emit(mem: &mut Phonemes, id: u8)
    requires
        old(mem).wf(),
        old(mem)@.len() < MAX_PHONEMES,
    ensures
        final(mem)@ == emitted(old(mem)@, id),
        final(mem).wf(),
{
    mem.phoneme_index.push(id);
    mem.phoneme_length.push(0);
    mem.stress.push(0);
}

/// Parses a phonetic string into the buffer, which is emptied first.
///
/// On success the buffer holds one entry for each sign, with the stress that
/// the digits behind the sign gave it and no duration yet. Fails on the first
/// character that is no sign and no stress digit behind a phoneme, and where
/// the input holds more phonemes than the buffer.
pub fn parse_1(mem: &mut Phonemes, phonetic: &[u8]) -> (r: Result<(), SynthError>)
    ensures
        final(mem).wf(),
        match parsed(phonetic@) {
            Ok(s) => r.is_ok() && final(mem)@ == s,
            Err(e) => r == Err::<(), SynthError>(e),
        },
{
    mem.phoneme_index.clear();
    mem.phoneme_length.clear();
    mem.stress.clear();
    assert(mem@ == PhonemeSeq::empty()) by {
        assert(mem@.ids =~= Seq::<u8>::empty());
        assert(mem@.lengths =~= Seq::<u8>::empty());
        assert(mem@.stress =~= Seq::<u8>::empty());
    }
    let n = phonetic.len();
    let ghost goal = parsed(phonetic@);
    let mut i: usize = 0;
    while i < n
        invariant
            mem.wf(),
            n == phonetic@.len(),
            goal == parsed(phonetic@),
            parsed_from(phonetic@, i as int, mem@) == goal,
        decreases n + 1 - i,
    {
        let sign1 = phonetic[i];
        let pair = if i + 1 < n {
            find_pair(sign1, phonetic[i + 1])
        } else {
            SIGN_COUNT
        };
        if pair < SIGN_COUNT {
            if mem.len() >= MAX_PHONEMES {
                return Err(SynthError::CapacityExceeded);
            }
            emit(mem, pair as u8);
            i += 2;
        } else {
            let single = find_single(sign1);
            if single < SIGN_COUNT {
                if mem.len() >= MAX_PHONEMES {
                    return Err(SynthError::CapacityExceeded);
                }
                emit(mem, single as u8);
                i += 1;
            } else if 49 <= sign1 && sign1 <= 56 && mem.len() > 0 {
                let last = mem.len() - 1;
                mem.set_stress(last, sign1 - 48);
                i += 1;
            } else {
                return Err(SynthError::ParseError { byte: sign1, offset: i });
            }
        }
    }
    Ok(())
}

} // verus!
