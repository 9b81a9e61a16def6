//! Voice parameters and the two formant tables derived from them.

use vstd::prelude::*;
use crate::tables::{
    entry, lookup, value_at, BASE_MOUTH, BASE_THROAT, MOUTH_FORMANTS_48_53, MOUTH_FORMANTS_5_29,
    THROAT_FORMANTS_48_53, THROAT_FORMANTS_5_29,
};

verus! {

/// The voice: pacing, base pitch, the two formant scalings and sing mode.
pub struct Params {
    pub speed: u8,
    pub pitch: u8,
    pub mouth: u8,
    pub throat: u8,
    pub singmode: bool,
}

/// The default voice.
pub open spec fn default_params() -> Params {
    Params { speed: 72, pitch: 64, mouth: 128, throat: 128, singmode: false }
}

impl Default for Params {
    fn default() -> (r: Self)
        ensures
            r == default_params(),
    {
        Params { speed: 72, pitch: 64, mouth: 128, throat: 128, singmode: false }
    }
}

/// A weight scaled by a voice parameter: the product halved, kept to a byte.
pub open spec fn scaled(param: u8, weight: u8) -> u8 {
    (((param as int * weight as int) / 2) % 256) as u8
}

/// The mouth formant of phoneme `id` under the mouth parameter `param`.
pub open spec fn mouth_formant(param: u8, id: int) -> u8 {
    if 5 <= id < 30 && MOUTH_FORMANTS_5_29[id] != 0 {
        scaled(param, MOUTH_FORMANTS_5_29[id])
    } else if 48 <= id < 54 && MOUTH_FORMANTS_48_53[id - 48] != 0 {
        scaled(param, MOUTH_FORMANTS_48_53[id - 48])
    } else {
        entry(BASE_MOUTH, id)
    }
}

/// The throat formant of phoneme `id` under the throat parameter `param`.
pub open spec fn throat_formant(param: u8, id: int) -> u8 {
    if 5 <= id < 30 && THROAT_FORMANTS_5_29[id] != 0 {
        scaled(param, THROAT_FORMANTS_5_29[id])
    } else if 48 <= id < 54 && THROAT_FORMANTS_48_53[id - 48] != 0 {
        scaled(param, THROAT_FORMANTS_48_53[id - 48])
    } else {
        entry(BASE_THROAT, id)
    }
}

/// The mouth formants of all phonemes under the mouth parameter `param`.
pub open spec fn mouth_table(param: u8) -> Seq<u8> {
    Seq::new(80, |id: int| mouth_formant(param, id))
}

/// The throat formants of all phonemes under the throat parameter `param`.
pub open spec fn throat_table(param: u8) -> Seq<u8> {
    Seq::new(80, |id: int| throat_formant(param, id))
}

fn scale(param: u8, weight: u8) -> (r: u8)
    ensures
        r == scaled(param, weight),
{
    assert(param as int * weight as int <= 255 * 255) by (nonlinear_arith)
        requires
            0 <= param <= 255,
            0 <= weight <= 255,
    ;
    let product: u32 = param as u32 * weight as u32;
    ((product / 2) % 256) as u8
}

/// The mouth and throat formant of each phoneme.
pub struct FormantTables {
    pub mouth: [u8; 80],
    pub throat: [u8; 80],
}

impl Default for FormantTables {
    fn default() -> (r: Self)
        ensures
            r.mouth == BASE_MOUTH,
            r.throat == BASE_THROAT,
    {
        FormantTables { mouth: BASE_MOUTH, throat: BASE_THROAT }
    }
}

impl FormantTables {
    /// Builds the tables of a voice: the weights of the phonemes 5 to 29 and 48
    /// to 53 are scaled by the mouth and throat parameters, every other entry
    /// keeps its base value.
    pub fn from_params(params: &Params) -> (r: Self)
        ensures
            r.mouth@ == mouth_table(params.mouth),
            r.throat@ == throat_table(params.throat),
    {
        let mut tables = FormantTables::default();
        let mut idx: usize = 5;
        while idx < 30
            invariant
                5 <= idx <= 30,
                forall|id: int|
                    0 <= id < idx ==> tables.mouth[id] == mouth_formant(params.mouth, id),
                forall|id: int|
                    0 <= id < idx ==> tables.throat[id] == throat_formant(params.throat, id),
                forall|id: int| idx <= id < 80 ==> tables.mouth[id] == BASE_MOUTH[id],
                forall|id: int| idx <= id < 80 ==> tables.throat[id] == BASE_THROAT[id],
            decreases 30 - idx,
        {
            if MOUTH_FORMANTS_5_29[idx] != 0 {
                tables.mouth[idx] = scale(params.mouth, MOUTH_FORMANTS_5_29[idx]);
            }
            if THROAT_FORMANTS_5_29[idx] != 0 {
                tables.throat[idx] = scale(params.throat, THROAT_FORMANTS_5_29[idx]);
            }
            idx += 1;
        }
        let mut idx: usize = 48;
        while idx < 54
            invariant
                48 <= idx <= 54,
                forall|id: int|
                    0 <= id < 30 ==> tables.mouth[id] == mouth_formant(params.mouth, id),
                forall|id: int|
                    0 <= id < 30 ==> tables.throat[id] == throat_formant(params.throat, id),
                forall|id: int|
                    30 <= id < idx ==> tables.mouth[id] == mouth_formant(params.mouth, id),
                forall|id: int|
                    30 <= id < idx ==> tables.throat[id] == throat_formant(params.throat, id),
                forall|id: int| idx <= id < 80 ==> tables.mouth[id] == BASE_MOUTH[id],
                forall|id: int| idx <= id < 80 ==> tables.throat[id] == BASE_THROAT[id],
            decreases 54 - idx,
        {
            if MOUTH_FORMANTS_48_53[idx - 48] != 0 {
                tables.mouth[idx] = scale(params.mouth, MOUTH_FORMANTS_48_53[idx - 48]);
            }
            if THROAT_FORMANTS_48_53[idx - 48] != 0 {
                tables.throat[idx] = scale(params.throat, THROAT_FORMANTS_48_53[idx - 48]);
            }
            idx += 1;
        }
        assert(tables.mouth@ =~= mouth_table(params.mouth));
        assert(tables.throat@ =~= throat_table(params.throat));
        tables
    }

    /// The mouth formant of `id`, zero for an id without a row.
    pub fn mouth_of(&self, id: u8) -> (r: u8)
        ensures
            r == value_at(self.mouth@, id as int),
    {
        lookup(&self.mouth, id as usize)
    }

    /// The throat formant of `id`, zero for an id without a row.
    pub fn throat_of(&self, id: u8) -> (r: u8)
        ensures
            r == value_at(self.throat@, id as int),
    {
        lookup(&self.throat, id as usize)
    }
}

} // verus!
