use bitaxe_api::json::{find, parse_json, JsonValue, Member, Number};

fn parse(json: &str) -> JsonValue {
    parse_json(json.as_bytes()).unwrap()
}

#[test]
fn scalars_are_read() {
    assert_eq!(parse("null"), JsonValue::Null);
    assert_eq!(parse("true"), JsonValue::Bool(true));
    assert_eq!(parse("false"), JsonValue::Bool(false));
    assert_eq!(parse("\"a\\u0041\\n\""), JsonValue::String(String::from("aA\n")));
    assert_eq!(parse(" 12 "), JsonValue::Number(Number::Integer(12)));
    assert_eq!(parse("-12"), JsonValue::Number(Number::Integer(-12)));
}

#[test]
fn integers_of_64_bits_are_kept_and_other_numbers_are_binary64() {
    assert_eq!(parse("18446744073709551615"), JsonValue::Number(Number::Integer(u64::MAX as i128)));
    assert_eq!(parse("-9223372036854775808"), JsonValue::Number(Number::Integer(i64::MIN as i128)));
    assert_eq!(
        parse("18446744073709551616"),
        JsonValue::Number(Number::Binary64(18446744073709551616f64.to_bits()))
    );
    assert_eq!(
        parse("-9223372036854775809"),
        JsonValue::Number(Number::Binary64((-9223372036854775809f64).to_bits()))
    );
    assert_eq!(parse("22.331"), JsonValue::Number(Number::Binary64(22.331f64.to_bits())));
    assert_eq!(parse("1.0"), JsonValue::Number(Number::Binary64(1.0f64.to_bits())));
    assert_eq!(parse("1e2"), JsonValue::Number(Number::Binary64(100.0f64.to_bits())));
    assert_eq!(parse("-0.0"), JsonValue::Number(Number::Binary64((-0.0f64).to_bits())));
    assert_eq!(parse("-0"), JsonValue::Number(Number::Binary64((-0.0f64).to_bits())));
    assert_eq!(parse("0"), JsonValue::Number(Number::Integer(0)));
}

#[test]
fn arrays_keep_their_order() {
    assert_eq!(parse("[]"), JsonValue::Array(vec![]));
    assert_eq!(
        parse("[2, [1], \"a\"]"),
        JsonValue::Array(vec![
            JsonValue::Number(Number::Integer(2)),
            JsonValue::Array(vec![JsonValue::Number(Number::Integer(1))]),
            JsonValue::String(String::from("a")),
        ])
    );
}

#[test]
fn objects_hold_each_name_once() {
    assert_eq!(parse("{}"), JsonValue::Object(vec![]));
    let JsonValue::Object(members) = parse(r#"{"b": 1, "a": {"c": null}, "b": 2}"#) else {
        panic!("no object");
    };
    assert_eq!(members.len(), 2);
    assert_eq!(find(&members, &String::from("b")), Some(&JsonValue::Number(Number::Integer(2))));
    assert_eq!(
        find(&members, &String::from("a")),
        Some(&JsonValue::Object(vec![Member { name: String::from("c"), value: JsonValue::Null }]))
    );
    assert_eq!(find(&members, &String::from("c")), None);
    assert_eq!(find(&members, &String::from("B")), None);
}

#[test]
fn the_first_member_of_a_name_is_found() {
    let members = vec![
        Member { name: String::from("a"), value: JsonValue::Bool(true) },
        Member { name: String::from("b"), value: JsonValue::Null },
        Member { name: String::from("a"), value: JsonValue::Bool(false) },
    ];
    assert_eq!(find(&members, &String::from("a")), Some(&JsonValue::Bool(true)));
    assert_eq!(find(&members, &String::from("b")), Some(&JsonValue::Null));
    assert_eq!(find(&members, &String::from("")), None);
    assert_eq!(find(&vec![], &String::from("a")), None);
}

#[test]
fn what_is_no_json_is_refused_with_a_message() {
    for text in ["", " ", "{", "[1,]", "{\"a\" 1}", "nul", "01", "1 2", "'a'", "\"a"] {
        let message = parse_json(text.as_bytes()).unwrap_err();
        assert!(!message.is_empty());
    }
    assert!(parse_json(&[0x22, 0xff, 0x22]).is_err());
    assert!(parse_json(&[0xff]).is_err());
}

#[test]
fn the_same_bytes_are_read_alike() {
    let text = r#"{"a": [1, 2.5, "x"], "b": {"c": false}}"#;
    assert_eq!(parse(text), parse(text));
    assert_eq!(parse_json(b"{").unwrap_err(), parse_json(b"{").unwrap_err());
}
