//! Fixed lookup tables of the phoneme inventory, with bounds-checked access.
//!
//! Every table is indexed by phoneme id unless stated otherwise. A read outside
//! a table yields zero, so that a lookup is defined for every byte.

use vstd::prelude::*;

verus! {

/// Number of phoneme ids that the signs of the input notation can name.
pub const SIGN_COUNT: usize = 81;

/// Id that stands for the end of the phoneme sequence.
pub const END: u8 = 255;

/// Id of the marker that closes a breath group.
pub const BREAK: u8 = 254;

/// First classification bit field.
/// 
/// Bit 7: vowel. Bit 6: consonant. Bit 5: front vowel, or diphthong ending in a
/// front glide.
/// Bit 4: diphthong. Bit 3: holds back the release of a plosive before it. Bit 2: voiced.
/// Bit 1: stop consonant.
/// Bit 0: unvoiced plosive.
pub const FLAGS: [u8; 81] = [
    0, 0, 0, 0, 0, 164, 164, 164, 164, 164, 164, 132, 132, 164, 164, 132,
    132, 132, 132, 132, 132, 132, 68, 68, 68, 68, 68, 76, 76, 76, 72, 76,
    64, 64, 64, 64, 64, 64, 68, 68, 68, 68, 72, 64, 76, 68, 0, 0,
    180, 180, 180, 148, 148, 148, 78, 78, 78, 78, 78, 78, 78, 78, 78, 78,
    78, 78, 75, 75, 75, 75, 75, 75, 75, 75, 75, 75, 75, 75, 128, 193,
    193,
];
/// Second classification bit field.
/// 
/// Bit 5: fricative. Bit 4: liquid. Bit 3: nasal. Bit 2: alveolar.
/// Bit 0: punctuation.
pub const FLAGS2: [u8; 78] = [
    128, 193, 193, 193, 193, 0, 0, 0, 0, 0, 0, 0, 0, 0, 0, 0,
    0, 0, 0, 0, 0, 0, 0, 16, 16, 16, 16, 8, 12, 8, 4, 64,
    36, 32, 32, 36, 0, 0, 36, 32, 32, 36, 32, 32, 0, 32, 0, 0,
    0, 0, 0, 0, 0, 0, 0, 0, 0, 4, 4, 4, 0, 0, 0, 0,
    0, 0, 0, 0, 0, 4, 4, 4, 0, 0, 0, 0, 0, 0,
];
/// Duration of an unstressed phoneme, in frames.
pub const PHONEME_LENGTH_TABLE: [u8; 80] = [
    0, 18, 18, 18, 8, 8, 8, 8, 8, 11, 6, 12, 10, 5, 5, 11,
    10, 10, 10, 9, 8, 7, 9, 7, 6, 8, 6, 7, 7, 7, 2, 5,
    2, 2, 2, 2, 2, 2, 6, 6, 7, 6, 6, 2, 8, 3, 1, 30,
    13, 12, 12, 12, 14, 9, 6, 1, 2, 5, 1, 1, 6, 1, 2, 6,
    1, 2, 8, 2, 2, 4, 2, 2, 6, 1, 4, 6, 1, 4, 199, 255,
];
/// Duration of a stressed phoneme, in frames.
pub const PHONEME_STRESSED_LENGTH_TABLE: [u8; 80] = [
    0, 18, 18, 18, 8, 11, 9, 11, 14, 15, 11, 16, 12, 6, 6, 14,
    12, 14, 12, 11, 8, 8, 11, 10, 9, 8, 8, 8, 8, 8, 3, 5,
    2, 2, 2, 2, 2, 2, 6, 6, 8, 6, 6, 2, 9, 4, 2, 1,
    14, 15, 15, 15, 14, 14, 8, 2, 2, 7, 2, 1, 7, 2, 2, 7,
    2, 2, 8, 2, 2, 6, 2, 2, 7, 2, 4, 7, 1, 4, 5, 5,
];
/// First character of each phoneme sign.
pub const SIGN_INPUT_TABLE_1: [u8; 81] = [
    32, 46, 63, 44, 45, 73, 73, 69, 65, 65, 65, 65, 85, 65, 73, 69,
    85, 79, 82, 76, 87, 89, 87, 82, 76, 87, 89, 77, 78, 78, 68, 81,
    83, 83, 70, 84, 47, 47, 90, 90, 86, 68, 67, 42, 74, 42, 42, 42,
    69, 65, 79, 65, 79, 85, 66, 42, 42, 68, 42, 42, 71, 42, 42, 71,
    42, 42, 80, 42, 42, 84, 42, 42, 75, 42, 42, 75, 42, 42, 85, 85,
    85,
];
/// Second character of each phoneme sign; `*` where the sign has one character.
pub const SIGN_INPUT_TABLE_2: [u8; 81] = [
    42, 42, 42, 42, 42, 89, 72, 72, 69, 65, 72, 79, 72, 88, 88, 82,
    88, 72, 88, 88, 88, 88, 72, 42, 42, 42, 42, 42, 42, 88, 88, 42,
    42, 72, 42, 72, 72, 88, 42, 72, 42, 72, 72, 42, 42, 42, 42, 42,
    89, 89, 89, 87, 87, 87, 42, 42, 42, 42, 42, 42, 42, 42, 42, 88,
    42, 42, 42, 42, 42, 42, 42, 42, 42, 42, 42, 88, 42, 42, 76, 77,
    78,
];
/// First formant frequency of each phoneme before scaling.
pub const BASE_MOUTH: [u8; 80] = [
    0, 19, 19, 19, 19, 10, 14, 18, 24, 26, 22, 20, 16, 20, 14, 18,
    14, 18, 18, 16, 12, 14, 10, 18, 14, 10, 8, 6, 6, 6, 6, 17,
    6, 6, 6, 6, 14, 16, 9, 10, 8, 10, 6, 6, 6, 5, 6, 0,
    18, 26, 20, 26, 18, 12, 6, 6, 6, 6, 6, 6, 6, 6, 6, 6,
    6, 6, 6, 6, 6, 6, 6, 6, 6, 10, 10, 6, 6, 6, 44, 19,
];
/// Second formant frequency of each phoneme before scaling.
pub const BASE_THROAT: [u8; 80] = [
    0, 67, 67, 67, 67, 84, 72, 66, 62, 40, 44, 30, 36, 44, 72, 48,
    36, 30, 50, 36, 28, 68, 24, 50, 30, 24, 82, 46, 54, 86, 54, 67,
    73, 79, 26, 66, 73, 37, 51, 66, 40, 47, 79, 79, 66, 79, 110, 0,
    72, 38, 30, 42, 30, 34, 26, 26, 26, 66, 66, 66, 110, 110, 110, 84,
    84, 84, 26, 26, 26, 66, 66, 66, 109, 86, 109, 84, 84, 84, 127, 127,
];
/// Mouth weights of the phonemes 5 to 29, indexed by phoneme id.
pub const MOUTH_FORMANTS_5_29: [u8; 30] = [
    0, 0, 0, 0, 0, 10, 14, 19, 24, 27, 23, 21, 16, 20, 14, 18,
    14, 18, 18, 16, 13, 15, 11, 18, 14, 11, 9, 6, 6, 6,
];
/// Throat weights of the phonemes 5 to 29, indexed by phoneme id.
pub const THROAT_FORMANTS_5_29: [u8; 30] = [
    255, 255, 255, 255, 255, 84, 73, 67, 63, 40, 44, 31, 37, 45, 73, 49,
    36, 30, 51, 37, 29, 69, 24, 50, 30, 24, 83, 46, 54, 86,
];
/// Mouth weights of the phonemes 48 to 53, indexed by id minus 48.
pub const MOUTH_FORMANTS_48_53: [u8; 6] = [
    19, 27, 21, 27, 18, 13,
];
/// Throat weights of the phonemes 48 to 53, indexed by id minus 48.
pub const THROAT_FORMANTS_48_53: [u8; 6] = [
    72, 39, 31, 43, 30, 34,
];
/// Selector of the sampled consonant of each phoneme; zero for a tonal phoneme.
pub const SAMPLED_CONSONANT_FLAGS: [u8; 80] = [
    0, 0, 0, 0, 0, 0, 0, 0, 0, 0, 0, 0, 0, 0, 0, 0,
    0, 0, 0, 0, 0, 0, 0, 0, 0, 0, 0, 0, 0, 0, 0, 0,
    241, 226, 211, 187, 124, 149, 1, 2, 3, 3, 0, 114, 0, 2, 0, 0,
    0, 0, 0, 0, 0, 0, 0, 0, 0, 0, 0, 0, 0, 0, 0, 0,
    0, 0, 0, 27, 0, 0, 25, 0, 0, 0, 0, 0, 0, 0, 0, 0,
];
/// Third formant frequency of each phoneme.
pub const FREQ3: [u8; 80] = [
    0, 91, 91, 91, 91, 110, 93, 91, 88, 89, 87, 88, 82, 89, 93, 62,
    82, 88, 62, 110, 80, 93, 90, 60, 110, 90, 110, 81, 121, 101, 121, 91,
    99, 106, 81, 121, 93, 82, 93, 103, 76, 93, 101, 101, 121, 101, 121, 0,
    90, 88, 88, 88, 88, 82, 81, 81, 81, 121, 121, 121, 112, 110, 110, 94,
    94, 94, 81, 81, 81, 121, 121, 121, 101, 101, 112, 94, 94, 94, 8, 1,
];
/// Raw amplitude code of the first formant.
pub const AMPLITUDE1: [u8; 80] = [
    0, 0, 0, 0, 0, 13, 13, 14, 15, 15, 15, 15, 15, 12, 13, 12,
    15, 15, 13, 13, 13, 14, 13, 12, 13, 13, 13, 12, 9, 9, 0, 0,
    0, 0, 0, 0, 0, 0, 11, 11, 11, 11, 0, 0, 1, 11, 0, 2,
    14, 15, 15, 15, 15, 13, 2, 4, 0, 2, 4, 0, 1, 4, 0, 1,
    4, 0, 0, 0, 0, 0, 0, 0, 0, 12, 0, 0, 0, 0, 15, 15,
];
/// Raw amplitude code of the second formant.
pub const AMPLITUDE2: [u8; 80] = [
    0, 0, 0, 0, 0, 10, 11, 13, 14, 13, 12, 12, 11, 9, 11, 11,
    12, 12, 12, 8, 8, 12, 8, 10, 8, 8, 10, 3, 9, 6, 0, 0,
    0, 0, 0, 0, 0, 0, 3, 5, 3, 4, 0, 0, 0, 5, 10, 2,
    14, 13, 12, 13, 12, 8, 0, 1, 0, 0, 1, 0, 0, 1, 0, 0,
    1, 0, 0, 0, 0, 0, 0, 0, 0, 10, 0, 0, 10, 0, 0, 0,
];
/// Raw amplitude code of the third formant.
pub const AMPLITUDE3: [u8; 80] = [
    0, 0, 0, 0, 0, 8, 7, 8, 8, 1, 1, 0, 1, 0, 7, 5,
    1, 0, 6, 1, 0, 7, 0, 5, 1, 0, 8, 0, 0, 3, 0, 0,
    0, 0, 0, 0, 0, 0, 0, 1, 0, 0, 0, 0, 0, 1, 14, 1,
    9, 1, 0, 1, 0, 0, 0, 0, 0, 0, 0, 0, 0, 0, 0, 0,
    0, 0, 0, 0, 0, 0, 0, 0, 0, 7, 0, 0, 5, 0, 19, 16,
];
/// Rank that decides whose transition lengths govern a boundary.
pub const BLEND_RANK: [u8; 80] = [
    0, 31, 31, 31, 31, 2, 2, 2, 2, 2, 2, 2, 2, 2, 5, 5,
    2, 10, 2, 8, 5, 5, 11, 10, 9, 8, 8, 160, 8, 8, 23, 31,
    18, 18, 18, 18, 30, 30, 20, 20, 20, 20, 23, 23, 26, 26, 29, 29,
    2, 2, 2, 2, 2, 2, 26, 29, 27, 26, 29, 27, 26, 29, 27, 26,
    29, 27, 23, 29, 23, 23, 29, 23, 23, 29, 23, 23, 29, 23, 23, 23,
];
/// Number of frames a phoneme spends leaving towards its neighbour.
pub const OUT_BLEND_LENGTH: [u8; 80] = [
    0, 2, 2, 2, 2, 4, 4, 4, 4, 4, 4, 4, 4, 4, 4, 4,
    4, 4, 3, 2, 4, 4, 2, 2, 2, 2, 2, 1, 1, 1, 1, 1,
    1, 1, 1, 1, 1, 1, 2, 2, 2, 1, 0, 1, 0, 1, 0, 5,
    5, 5, 5, 5, 4, 4, 2, 0, 1, 2, 0, 1, 2, 0, 1, 2,
    0, 1, 2, 0, 2, 2, 0, 1, 3, 0, 2, 3, 0, 2, 160, 160,
];
/// Number of frames a phoneme spends arriving from its neighbour.
pub const IN_BLEND_LENGTH: [u8; 80] = [
    0, 2, 2, 2, 2, 4, 4, 4, 4, 4, 4, 4, 4, 4, 4, 4,
    4, 4, 3, 3, 4, 4, 3, 3, 3, 3, 3, 1, 2, 3, 2, 1,
    3, 3, 3, 3, 1, 1, 3, 3, 3, 2, 2, 3, 2, 3, 0, 0,
    5, 5, 5, 5, 4, 4, 2, 0, 2, 2, 0, 3, 2, 0, 4, 2,
    0, 3, 2, 0, 2, 2, 0, 2, 3, 0, 3, 3, 0, 3, 176, 160,
];
/// Loudness code of each raw amplitude code from 0 to 16.
pub const AMPLITUDE_RESCALE: [u8; 17] = [
    0, 1, 2, 2, 2, 3, 3, 4, 4, 5, 6, 8, 9, 11, 13, 15,
    0,
];
/// Pitch offset by stress, indexed by stress plus one; the offsets wrap as signed bytes.
pub const PITCH_OFFSETS: [u8; 11] = [
    0, 0, 224, 230, 236, 243, 249, 0, 6, 12, 6,
];
/// Output level of each class of sampled consonant.
pub const SAMPLE_LEVELS: [u8; 5] = [
    24, 26, 23, 23, 23,
];
/// Advance of the output clock in ticks, by the kind of the previous batch and
/// the kind of the current one.
pub const C64_TIMETABLE: [[u8; 5]; 5] = [
    [162, 167, 167, 127, 128],
    [226, 60, 60, 0, 0],
    [225, 60, 59, 0, 0],
    [200, 0, 0, 54, 55],
    [199, 0, 0, 54, 54],
];

/// The entry of `table` at `i`, or zero where `i` lies outside the table.
pub open spec fn entry<const N: usize>(table: [u8; N], i: int) -> u8 {
    if 0 <= i < N {
        table[i]
    } else {
        0
    }
}

/// The value of a sequence at `i`, zero outside the sequence.
pub open spec fn value_at(values: Seq<u8>, i: int) -> u8 {
    if 0 <= i < values.len() {
        values[i]
    } else {
        0
    }
}

/// Reads a table with a bounds check.
pub fn lookup<const N: usize>(table: &[u8; N], i: usize) -> (r: u8)
    ensures
        r == entry(*table, i as int),
        r == value_at(table@, i as int),
{
    if i < N {
        table[i]
    } else {
        0
    }
}

/// Bit of the first bit field: the phoneme is a vowel.
pub const VOWEL: u8 = 128;

/// Bit of the first bit field: the phoneme is a consonant.
pub const CONSONANT: u8 = 64;

/// Bit of the first bit field: the phoneme is a front vowel, or a diphthong
/// that ends in a front glide.
pub const FRONT_GLIDE: u8 = 32;

/// Bit of the first bit field: the phoneme is a diphthong.
pub const DIPHTHONG: u8 = 16;

/// Bit of the first bit field: after a plosive, the phoneme keeps the plosive
/// from being released.
pub const HOLDS_RELEASE: u8 = 8;

/// Bit of the first bit field: the phoneme is voiced.
pub const VOICED: u8 = 4;

/// Bit of the first bit field: the phoneme is a stop consonant.
pub const STOP: u8 = 2;

/// Bit of the first bit field: the phoneme is an unvoiced plosive.
pub const PLOSIVE: u8 = 1;

/// Bit of the second bit field: the phoneme is a fricative.
pub const FRICATIVE: u8 = 32;

/// Bit of the second bit field: the phoneme is a liquid.
pub const LIQUID: u8 = 16;

/// Bit of the second bit field: the phoneme is a nasal.
pub const NASAL: u8 = 8;

/// Bit of the second bit field: the phoneme is an alveolar.
pub const ALVEOLAR: u8 = 4;

/// Bit of the second bit field: the phoneme is punctuation.
pub const PUNCTUATION: u8 = 1;

/// Whether phoneme `id` has the bit `mask` of the first bit field; no id
/// outside the table has any.
pub open spec fn has_flag(id: u8, mask: u8) -> bool {
    entry(FLAGS, id as int) & mask != 0
}

/// Whether phoneme `id` has the bit `mask` of the second bit field; no id
/// outside the table has any.
pub open spec fn has_flag2(id: u8, mask: u8) -> bool {
    entry(FLAGS2, id as int) & mask != 0
}

/// Tests a bit of the first bit field.
pub fn test_flag(id: u8, mask: u8) -> (r: bool)
    ensures
        r == has_flag(id, mask),
{
    lookup(&FLAGS, id as usize) & mask != 0
}

/// Tests a bit of the second bit field.
pub fn test_flag2(id: u8, mask: u8) -> (r: bool)
    ensures
        r == has_flag2(id, mask),
{
    lookup(&FLAGS2, id as usize) & mask != 0
}

} // verus!
