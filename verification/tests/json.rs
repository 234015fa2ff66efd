use irodori_trino::codec::{parse_json, render_json};
use irodori_trino::entries::find_last;
use irodori_trino::json::{no_fields, put_field, Json, JsonNumber};

fn parsed(text: &str) -> Json {
    parse_json(text).unwrap()
}

#[test]
fn every_kind_of_value_goes_round() {
    for text in [
        "null",
        "true",
        "false",
        "0",
        "18446744073709551615",
        "-1",
        "-9223372036854775808",
        "1.5",
        "1e100",
        "\"\"",
        "\"a\\\"b\\\\c\\n\"",
        "[]",
        "{}",
        "[null,[true,{\"a\":[1,-2,0.25]}]]",
        "{\"a\":{\"b\":{\"c\":[]}},\"d\":\"e\"}",
    ] {
        let expected: serde_json::Value = serde_json::from_str(text).unwrap();
        assert_eq!(render_json(parsed(text)), expected.to_string());
    }
}

#[test]
fn rendering_is_compact_and_sorts_fields() {
    assert_eq!(
        render_json(parsed(" { \"b\" : 1 , \"a\" : [ 1 , 2 ] } ")),
        "{\"a\":[1,2],\"b\":1}"
    );
}

#[test]
fn errors_carry_the_message_of_the_reader() {
    let expected = serde_json::from_str::<serde_json::Value>("{").unwrap_err();
    assert_eq!(parse_json("{").unwrap_err(), expected.to_string());
    assert_eq!(
        parse_json("nux").unwrap_err(),
        "expected ident at line 1 column 3"
    );
    assert!(parse_json("1 2").is_err());
    assert!(parse_json("").is_err());
}

#[test]
fn numbers_are_read_by_their_kind() {
    assert_eq!(parsed("5"), Json::Number(JsonNumber::Unsigned(5)));
    assert_eq!(parsed("-5"), Json::Number(JsonNumber::Signed(-5)));
    assert_eq!(parsed("5").as_u64(), Some(5));
    assert_eq!(parsed("5").as_i64(), Some(5));
    assert_eq!(parsed("-5").as_u64(), None);
    assert_eq!(parsed("-5").as_i64(), Some(-5));
    assert_eq!(parsed("9223372036854775808").as_i64(), None);
    assert_eq!(
        parsed("9223372036854775808").as_u64(),
        Some(9223372036854775808)
    );
    assert_eq!(parsed("5.0").as_u64(), None);
    assert_eq!(parsed("5.0").as_i64(), None);
    assert_eq!(Json::Number(JsonNumber::Signed(5)).as_u64(), Some(5));
    assert_eq!(
        Json::Number(JsonNumber::Unsigned(u64::MAX)).as_i64(),
        None
    );
}

#[test]
fn numbers_of_the_reader_are_read_too() {
    let number = |n: serde_json::Number| JsonNumber::Other(n);
    assert_eq!(number(serde_json::Number::from(7u64)).as_u64(), Some(7));
    assert_eq!(number(serde_json::Number::from(-7i64)).as_i64(), Some(-7));
    assert_eq!(number(serde_json::Number::from(-7i64)).as_u64(), None);
    let half = serde_json::Number::from_f64(0.5).unwrap();
    assert_eq!(number(half.clone()).as_u64(), None);
    assert_eq!(number(half.clone()).as_i64(), None);
    assert_eq!(number(half.clone()).text(), "0.5");
    assert_eq!(render_json(Json::Number(number(half))), "0.5");
}

#[test]
fn numbers_are_written_in_decimal() {
    assert_eq!(JsonNumber::Unsigned(0).text(), "0");
    assert_eq!(JsonNumber::Unsigned(8443).text(), "8443");
    assert_eq!(
        JsonNumber::Unsigned(u64::MAX).text(),
        "18446744073709551615"
    );
    assert_eq!(JsonNumber::Signed(-12).text(), "-12");
    assert_eq!(JsonNumber::Signed(12).text(), "12");
    assert_eq!(
        JsonNumber::Signed(i64::MIN).text(),
        "-9223372036854775808"
    );
}

#[test]
fn fields_are_found_in_objects_only() {
    let value = parsed("{\"a\":null,\"b\":true,\"c\":\"x\",\"d\":[1]}");
    assert_eq!(value.get("a"), Some(&Json::Null));
    assert_eq!(value.get("z"), None);
    assert_eq!(value.get("b").unwrap().as_bool(), Some(true));
    assert_eq!(value.get("c").unwrap().as_str(), Some("x"));
    assert_eq!(value.get("d").unwrap().as_array().unwrap().len(), 1);
    assert_eq!(value.as_str(), None);
    assert_eq!(value.as_bool(), None);
    assert_eq!(value.as_array(), None);
    assert_eq!(value.as_u64(), None);
    assert_eq!(value.as_i64(), None);
    assert_eq!(parsed("[1]").get("0"), None);
    assert_eq!(parsed("\"a\"").get("a"), None);
}

#[test]
fn the_last_entry_for_a_key_counts() {
    let value = parsed("{\"a\":1,\"a\":2}");
    assert_eq!(value.get("a").unwrap().as_u64(), Some(2));
    let mut fields = no_fields();
    put_field(&mut fields, "a", Json::Bool(false));
    put_field(&mut fields, "b", Json::Null);
    put_field(&mut fields, "a", Json::Bool(true));
    assert_eq!(find_last(&fields, "a"), Some(2));
    assert_eq!(find_last(&fields, "c"), None);
    let object = Json::Object(fields);
    assert_eq!(object.get("a"), Some(&Json::Bool(true)));
    assert_eq!(render_json(object), "{\"a\":true,\"b\":null}");
}
