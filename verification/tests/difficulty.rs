use bitaxe_api::binary64::Whole;
use bitaxe_api::difficulty::{
    deserialize_difficulty, difficulty_query, difficulty_query_of, parse_difficulty, scale,
    NumberReading, Unit,
};
use bitaxe_api::error::{Fault, Kind};
use bitaxe_api::json::{parse_json, JsonValue};

/// Reads a word as a binary64 number.
fn read(word: Option<String>) -> NumberReading {
    match word.map(|word| word.parse::<f64>()) {
        Some(Ok(number)) => NumberReading::Binary64(number.to_bits()),
        _ => NumberReading::NotANumber,
    }
}

fn bits(number: f64) -> NumberReading {
    NumberReading::Binary64(number.to_bits())
}

fn decode(text: &str) -> Result<u64, Fault> {
    parse_difficulty(text, read(difficulty_query(text)))
}

fn decode_json(json: &str) -> Result<u64, Fault> {
    let value = parse_json(json.as_bytes()).unwrap();
    deserialize_difficulty(&value, read(difficulty_query_of(&value)))
}

#[test]
fn a_number_alone_is_the_difficulty() {
    assert_eq!(decode("1000"), Ok(1000));
    assert_eq!(decode("0"), Ok(0));
    assert_eq!(decode("  42\t"), Ok(42));
}

#[test]
fn a_unit_scales_the_number() {
    assert_eq!(decode("2.03 G"), Ok(2_030_000_000));
    assert_eq!(decode("138.17 M"), Ok(138_170_000));
    assert_eq!(decode("1 K"), Ok(1_000));
    assert_eq!(decode("1 M"), Ok(1_000_000));
    assert_eq!(decode("1 G"), Ok(1_000_000_000));
    assert_eq!(decode("1 T"), Ok(1_000_000_000_000));
    assert_eq!(decode("1 P"), Ok(1_000_000_000_000_000));
    assert_eq!(decode("1 E"), Ok(1_000_000_000_000_000_000));
    assert_eq!(decode("4.29 T"), Ok(4_290_000_000_000));
}

#[test]
fn a_number_alone_loses_its_fraction_and_a_scaled_one_is_rounded() {
    assert_eq!(decode("1000.9"), Ok(1000));
    assert_eq!(decode("0.9"), Ok(0));
    assert_eq!(decode("1.0006 K"), Ok(1001));
    assert_eq!(decode("1.0004 K"), Ok(1000));
    assert_eq!(decode("0.0005 K"), Ok(1));
    assert_eq!(decode("0.0004 K"), Ok(0));
}

#[test]
fn the_empty_text_is_rejected() {
    assert_eq!(decode(""), Err(Fault::EmptyDifficulty(String::from(""))));
    assert_eq!(decode(" \t\n"), Err(Fault::EmptyDifficulty(String::from(" \t\n"))));
    assert_eq!(decode("\u{3000}"), Err(Fault::EmptyDifficulty(String::from("\u{3000}"))));
}

#[test]
fn an_unknown_unit_is_rejected() {
    assert_eq!(decode("5 X"), Err(Fault::UnknownUnit(String::from("X"))));
    assert_eq!(decode("5 k"), Err(Fault::UnknownUnit(String::from("k"))));
    assert_eq!(decode("5 KK"), Err(Fault::UnknownUnit(String::from("KK"))));
    assert_eq!(decode("5 G/s"), Err(Fault::UnknownUnit(String::from("G/s"))));
}

#[test]
fn a_word_that_is_no_number_is_rejected() {
    assert_eq!(decode("abc"), Err(Fault::InvalidNumber(String::from("abc"))));
    assert_eq!(decode("2.03G"), Err(Fault::InvalidNumber(String::from("2.03G"))));
    assert_eq!(decode("G 5"), Err(Fault::InvalidNumber(String::from("G"))));
    assert_eq!(decode("1,5 K"), Err(Fault::InvalidNumber(String::from("1,5"))));
}

#[test]
fn the_number_is_looked_at_before_the_unit() {
    assert_eq!(decode("abc X"), Err(Fault::InvalidNumber(String::from("abc"))));
    assert_eq!(decode("-1 X"), Err(Fault::UnknownUnit(String::from("X"))));
}

#[test]
fn a_negative_difficulty_is_rejected() {
    assert_eq!(decode("-1"), Err(Fault::NegativeDifficulty(String::from("-1"))));
    assert_eq!(decode("-2.03 G"), Err(Fault::NegativeDifficulty(String::from("-2.03"))));
    assert_eq!(decode("-inf"), Err(Fault::NegativeDifficulty(String::from("-inf"))));
    assert_eq!(decode("-0"), Ok(0));
    assert_eq!(decode("-0.4"), Ok(0));
    assert_eq!(decode("-0.0004 K"), Ok(0));
}

#[test]
fn a_difficulty_beyond_the_range_is_the_largest() {
    assert_eq!(decode("18446744073709551615"), Ok(u64::MAX));
    assert_eq!(decode("1e30"), Ok(u64::MAX));
    assert_eq!(decode("19 E"), Ok(u64::MAX));
    assert_eq!(decode("inf"), Ok(u64::MAX));
    assert_eq!(decode("18 E"), Ok(18_000_000_000_000_000_000));
    assert_eq!(decode("NaN"), Ok(0));
}

#[test]
fn words_after_the_unit_are_not_looked_at() {
    assert_eq!(decode("2 K or so"), Ok(2000));
    assert_eq!(decode("2\u{a0}K\u{2003}X"), Ok(2000));
}

#[test]
fn bits_are_taken_as_given() {
    assert_eq!(parse_difficulty("7 K", bits(7.0)), Ok(7000));
    assert_eq!(parse_difficulty("7 K", bits(0.25)), Ok(250));
    assert_eq!(parse_difficulty("7", bits(0.25)), Ok(0));
    assert_eq!(parse_difficulty("7 K", bits(0.0)), Ok(0));
    assert_eq!(parse_difficulty("7 K", bits(-0.0)), Ok(0));
    assert_eq!(
        parse_difficulty("7 K", bits(-1.0)),
        Err(Fault::NegativeDifficulty(String::from("7")))
    );
    assert_eq!(parse_difficulty("7 K", bits(f64::MAX)), Ok(u64::MAX));
    assert_eq!(parse_difficulty("7", bits(f64::INFINITY)), Ok(u64::MAX));
    assert_eq!(parse_difficulty("7", bits(f64::NAN)), Ok(0));
    assert_eq!(
        parse_difficulty("7", bits(f64::NEG_INFINITY)),
        Err(Fault::NegativeDifficulty(String::from("7")))
    );
    assert_eq!(
        parse_difficulty("7 K", NumberReading::NotANumber),
        Err(Fault::InvalidNumber(String::from("7")))
    );
    assert_eq!(parse_difficulty("", bits(1.0)), Err(Fault::EmptyDifficulty(String::from(""))));
}

#[test]
fn the_first_word_is_to_be_read() {
    assert_eq!(difficulty_query(""), None);
    assert_eq!(difficulty_query("  "), None);
    assert_eq!(difficulty_query("1000"), Some(String::from("1000")));
    assert_eq!(difficulty_query(" 2.03  G "), Some(String::from("2.03")));
    assert_eq!(difficulty_query("5 X"), Some(String::from("5")));
    assert_eq!(difficulty_query("abc E rest"), Some(String::from("abc")));
}

#[test]
fn numbers_under_units() {
    let whole = |negative, size| Whole { negative, size };
    assert_eq!(scale(2.03f64.to_bits(), Some(Unit::G)), whole(false, 2_030_000_000));
    assert_eq!(scale(2.03f64.to_bits(), None), whole(false, 2));
    assert_eq!(scale((-2.03f64).to_bits(), None), whole(true, 2));
    assert_eq!(scale((-0.5f64).to_bits(), None), whole(true, 0));
    assert_eq!(scale(0.0005f64.to_bits(), Some(Unit::K)), whole(false, 1));
    assert_eq!(scale((-0.0005f64).to_bits(), Some(Unit::K)), whole(true, 1));
    assert_eq!(scale(18.5f64.to_bits(), Some(Unit::E)), whole(false, u64::MAX));
}

#[test]
fn units_are_the_six_letters() {
    assert_eq!(Unit::from_word("K"), Some(Unit::K));
    assert_eq!(Unit::from_word("M"), Some(Unit::M));
    assert_eq!(Unit::from_word("G"), Some(Unit::G));
    assert_eq!(Unit::from_word("T"), Some(Unit::T));
    assert_eq!(Unit::from_word("P"), Some(Unit::P));
    assert_eq!(Unit::from_word("E"), Some(Unit::E));
    for word in ["", "k", "m", "KM", " K", "Z", "\u{212a}"] {
        assert_eq!(Unit::from_word(word), None);
    }
    assert_eq!(Unit::K.multiplier(), 10u64.pow(3));
    assert_eq!(Unit::M.multiplier(), 10u64.pow(6));
    assert_eq!(Unit::G.multiplier(), 10u64.pow(9));
    assert_eq!(Unit::T.multiplier(), 10u64.pow(12));
    assert_eq!(Unit::P.multiplier(), 10u64.pow(15));
    assert_eq!(Unit::E.multiplier(), 10u64.pow(18));
}

#[test]
fn a_difficulty_is_a_json_string() {
    assert_eq!(decode_json(r#""2.03 G""#), Ok(2_030_000_000));
    assert_eq!(decode_json(r#""""#), Err(Fault::EmptyDifficulty(String::from(""))));
    for json in ["1000", "2.5", "null", "true", "[\"1\"]", "{\"a\":\"1\"}"] {
        assert_eq!(decode_json(json), Err(Fault::Expected(Kind::Text)));
        assert_eq!(difficulty_query_of(&parse_json(json.as_bytes()).unwrap()), None);
    }
    assert_eq!(
        deserialize_difficulty(&JsonValue::String(String::from("3 K")), bits(3.0)),
        Ok(3000)
    );
}
