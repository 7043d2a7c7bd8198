//! Difficulties as the firmware writes them: a decimal number, and after white space an optional
//! unit letter that scales it by a power of a thousand.
//!
//! The number is a binary64 floating-point number. Reading a word as one is left to the caller:
//! the library says which word is to be read, takes the bits of the number that it reads as
//! (`NumberReading`), and does the rest on the bits.

use vstd::arithmetic::power::pow;
use vstd::prelude::*;
use crate::binary64::{
    float_of, lemma_whole_numbers_are_exact, multiplied, multiply_and_round, nearest_to, rounded,
    truncate, truncated, whole_of, Whole,
};
use crate::error::{Fault, FaultView, Kind};
use crate::json::{Json, JsonValue};
use crate::text::{is_word, lemma_words_are_runs, split_whitespace, texts, words};

verus! {

/// The unit letters.
#[derive(Clone, Copy, Debug, PartialEq, Eq)]
pub enum Unit {
    K,
    M,
    G,
    T,
    P,
    E,
}

impl Unit {
    /// The power of ten that the unit stands for.
    pub open spec fn exponent(self) -> nat {
        match self {
            Unit::K => 3,
            Unit::M => 6,
            Unit::G => 9,
            Unit::T => 12,
            Unit::P => 15,
            Unit::E => 18,
        }
    }

    /// The number that the unit multiplies by: ten to its exponent.
    pub open spec fn factor(self) -> int {
        match self {
            Unit::K => 1_000,
            Unit::M => 1_000_000,
            Unit::G => 1_000_000_000,
            Unit::T => 1_000_000_000_000,
            Unit::P => 1_000_000_000_000_000,
            Unit::E => 1_000_000_000_000_000_000,
        }
    }

    /// The number that the unit multiplies by.
    pub fn multiplier(self) -> (r: u64)
        ensures
            r == self.factor(),
            r == pow(10, self.exponent()),
    {
        proof {
            lemma_factor_is_power_of_ten(self);
        }
        match self {
            Unit::K => 1_000,
            Unit::M => 1_000_000,
            Unit::G => 1_000_000_000,
            Unit::T => 1_000_000_000_000,
            Unit::P => 1_000_000_000_000_000,
            Unit::E => 1_000_000_000_000_000_000,
        }
    }

    /// The unit that `word` names: the word is exactly one of the six letters.
    pub fn from_word(word: &str) -> (r: Option<Unit>)
        ensures
            r == unit_of(word@),
    {
        if word.unicode_len() != 1 {
            return None;
        }
        let c: char = word.get_char(0);
        assert(word@ =~= seq![c]);
        if c == 'K' {
            Some(Unit::K)
        } else if c == 'M' {
            Some(Unit::M)
        } else if c == 'G' {
            Some(Unit::G)
        } else if c == 'T' {
            Some(Unit::T)
        } else if c == 'P' {
            Some(Unit::P)
        } else if c == 'E' {
            Some(Unit::E)
        } else {
            None
        }
    }
}

/// The unit that a word names, if it names one.
pub open spec fn unit_of(word: Seq<char>) -> Option<Unit> {
    if word == seq!['K'] {
        Some(Unit::K)
    } else if word == seq!['M'] {
        Some(Unit::M)
    } else if word == seq!['G'] {
        Some(Unit::G)
    } else if word == seq!['T'] {
        Some(Unit::T)
    } else if word == seq!['P'] {
        Some(Unit::P)
    } else if word == seq!['E'] {
        Some(Unit::E)
    } else {
        None
    }
}

/// Each unit multiplies by ten to the power of its exponent.
pub proof fn lemma_factor_is_power_of_ten(unit: Unit)
    ensures
        unit.factor() == pow(10, unit.exponent()),
{
    reveal_with_fuel(pow, 19);
}

/// What came of reading a word as a binary64 floating-point number.
#[derive(Clone, Copy, Debug, PartialEq, Eq)]
pub enum NumberReading {
    /// The word does not read as a number.
    NotANumber,
    /// The word reads as the number of these bits.
    Binary64(u64),
}

/// The word of a difficulty text that is to be read as a number: its first, if it has one.
pub open spec fn query_of(text: Seq<char>) -> Option<Seq<char>> {
    let w = words(text);
    if w.len() == 0 {
        None
    } else {
        Some(w[0])
    }
}

/// The whole number that a number comes to under a unit: without one its fraction is dropped;
/// with one it is multiplied by what the unit stands for, and the product is rounded to the
/// nearest whole number, halves away from zero.
pub open spec fn scaled(bits: u64, unit: Option<Unit>) -> Whole {
    match unit {
        None => whole_of(truncated(float_of(bits))),
        Some(unit) => whole_of(rounded(multiplied(float_of(bits), unit.factor() as nat))),
    }
}

/// The unit of a difficulty text whose words are `w`: that of the second word, if there is one.
pub open spec fn unit_in(w: Seq<Seq<char>>) -> Option<Unit> {
    if w.len() >= 2 {
        unit_of(w[1])
    } else {
        None
    }
}

/// The difficulty that a text stands for, given what came of reading its first word.
///
/// A text without a word is rejected, then one whose first word is no number, then one whose
/// second word is no unit, then one whose number comes to a whole number below zero. What is
/// left is the whole number that the number comes to under the unit, or `u64::MAX` where that
/// is less.
pub open spec fn difficulty_of(text: Seq<char>, reading: NumberReading) -> Result<u64, FaultView> {
    let w = words(text);
    if w.len() == 0 {
        Err(FaultView::EmptyDifficulty(text))
    } else {
        match reading {
            NumberReading::NotANumber => Err(FaultView::InvalidNumber(w[0])),
            NumberReading::Binary64(bits) => if w.len() >= 2 && unit_of(w[1]) is None {
                Err(FaultView::UnknownUnit(w[1]))
            } else if scaled(bits, unit_in(w)).negative && scaled(bits, unit_in(w)).size > 0 {
                Err(FaultView::NegativeDifficulty(w[0]))
            } else {
                Ok(scaled(bits, unit_in(w)).size)
            },
        }
    }
}

/// What a unit multiplies by, and 1 where there is none.
pub open spec fn factor_of(unit: Option<Unit>) -> nat {
    match unit {
        None => 1,
        Some(unit) => unit.factor() as nat,
    }
}

/// A difficulty whose number is a whole number comes out exactly: as the number, multiplied by
/// what the unit stands for where there is a unit, as long as that is below 2^53 and the first
/// word was read as the binary64 number nearest to the number.
pub proof fn lemma_whole_difficulties_are_exact(text: Seq<char>, n: nat)
    requires
        words(text).len() >= 1,
        words(text).len() >= 2 ==> unit_of(words(text)[1]) is Some,
        n * factor_of(unit_in(words(text))) < 0x20_0000_0000_0000,
    ensures
        difficulty_of(text, NumberReading::Binary64(nearest_to(n as int))) == Ok::<u64, FaultView>(
            (n * factor_of(unit_in(words(text)))) as u64,
        ),
{
    let unit = unit_in(words(text));
    lemma_whole_numbers_are_exact(n, factor_of(unit));
    if unit is None {
        assert(n * 1 == n);
    }
}

/// The difficulty that a JSON value stands for: that of its text, where it is a string.
pub open spec fn difficulty_of_value(value: Json, reading: NumberReading) -> Result<
    u64,
    FaultView,
> {
    match value {
        Json::String(text) => difficulty_of(text, reading),
        _ => Err(FaultView::Expected(Kind::Text)),
    }
}

/// The word of a JSON value that is to be read as a number: that of its text, where it is a
/// string.
pub open spec fn query_of_value(value: Json) -> Option<Seq<char>> {
    match value {
        Json::String(text) => query_of(text),
        _ => None,
    }
}

/// The view of a decoded difficulty or of the fault that stood in its way.
pub open spec fn outcome_view(r: Result<u64, Fault>) -> Result<u64, FaultView> {
    match r {
        Ok(difficulty) => Ok(difficulty),
        Err(fault) => Err(fault@),
    }
}

/// The view of a word, where there is one.
pub open spec fn query_view(q: Option<String>) -> Option<Seq<char>> {
    match q {
        Some(word) => Some(word@),
        None => None,
    }
}

/// The whole number that a number comes to under a unit.
pub fn scale(bits: u64, unit: Option<Unit>) -> (r: Whole)
    ensures
        r == scaled(bits, unit),
{
    match unit {
        None => truncate(bits),
        Some(unit) => multiply_and_round(bits, unit.multiplier()),
    }
}

/// The word of a difficulty text that the caller is to read as a binary64 number. It is not
/// empty and holds no white space.
pub fn difficulty_query(text: &str) -> (r: Option<String>)
    ensures
        query_view(r) == query_of(text@),
        r matches Some(word) ==> is_word(word@),
{
    let parts = split_whitespace(text);
    proof {
        lemma_words_are_runs(text@, 0);
    }
    if parts.len() == 0 {
        return None;
    }
    assert(texts(parts@)[0] == parts@[0]@);
    Some(parts[0].clone())
}

/// Decodes a difficulty text, given what came of reading its first word.
pub fn parse_difficulty(text: &str, reading: NumberReading) -> (r: Result<u64, Fault>)
    ensures
        outcome_view(r) == difficulty_of(text@, reading),
{
    let parts = split_whitespace(text);
    if parts.len() == 0 {
        return Err(Fault::EmptyDifficulty(text.to_owned()));
    }
    assert(texts(parts@)[0] == parts@[0]@);
    match reading {
        NumberReading::NotANumber => Err(Fault::InvalidNumber(parts[0].clone())),
        NumberReading::Binary64(bits) => {
            let unit = if parts.len() >= 2 {
                assert(texts(parts@)[1] == parts@[1]@);
                let unit = Unit::from_word(parts[1].as_str());
                if unit.is_none() {
                    return Err(Fault::UnknownUnit(parts[1].clone()));
                }
                unit
            } else {
                None
            };
            let whole = scale(bits, unit);
            if whole.negative && whole.size > 0 {
                Err(Fault::NegativeDifficulty(parts[0].clone()))
            } else {
                Ok(whole.size)
            }
        },
    }
}

/// The word of a JSON value that holds a difficulty that the caller is to read as a binary64
/// number.
pub fn difficulty_query_of(value: &JsonValue) -> (r: Option<String>)
    ensures
        query_view(r) == query_of_value(value@),
{
    match value {
        JsonValue::String(text) => difficulty_query(text.as_str()),
        _ => None,
    }
}

/// Decodes a difficulty from a JSON value, given what came of reading its first word.
pub fn deserialize_difficulty(value: &JsonValue, reading: NumberReading) -> (r: Result<u64, Fault>)
    ensures
        outcome_view(r) == difficulty_of_value(value@, reading),
{
    match value {
        JsonValue::String(text) => parse_difficulty(text.as_str(), reading),
        _ => Err(Fault::Expected(Kind::Text)),
    }
}

} // verus!
