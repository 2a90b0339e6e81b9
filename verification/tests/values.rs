use kivio_core::image::{fits_memory, png_address};
use kivio_core::json::Json;
use kivio_core::json_text::{integer, number, read_json, to_json, to_value, write_json};

fn sample() -> serde_json::Value {
    let text = "{\"b\":[1,-2,3.5,null,true,\"\\u5b57\"],\"a\":{\"x\":\"\"},\"c\":18446744073709551615}";
    match serde_json::from_str(text) {
        Ok(value) => value,
        Err(error) => panic!("{}", error),
    }
}

#[test]
fn values_go_over_to_serde_json_and_back() {
    assert_eq!(to_value(&to_json(sample())), sample());
    let json = to_json(sample());
    assert_eq!(json.get("b").and_then(|b| b.at(5)).and_then(|s| s.as_str()), Some("字"));
    assert_eq!(json.items_at("b").map(|b| b.len()), Some(6));
    assert!(json.items_at("a").is_none());
    assert_eq!(json.get("a").and_then(|a| a.text_at("x")), Some(""));
    assert!(json.get("zz").is_none() && json.at(0).is_none());
    assert_eq!(json.copy(), json);
}

#[test]
fn texts_are_read_and_written_as_serde_json_does() {
    let text = " {\"z\" : 1, \"a\" : [true, null], \"z\" : \"last\"} ";
    let json = read_json(text).unwrap_or_else(|e| panic!("{}", e));
    assert_eq!(json.text_at("z"), Some("last"));
    assert_eq!(write_json(&json), "{\"a\":[true,null],\"z\":\"last\"}");
    let expected = match serde_json::from_str::<serde_json::Value>("{\"a\":") {
        Ok(_) => panic!("not a value"),
        Err(error) => error.to_string(),
    };
    assert_eq!(read_json("{\"a\":"), Err(expected));
}

#[test]
fn numbers_are_those_of_serde_json() {
    assert_eq!(to_value(&number("0.2")), serde_json::Value::from(0.2));
    assert_eq!(to_value(&number("0.7")), serde_json::Value::from(0.7));
    assert_eq!(to_value(&number("2000")), serde_json::Value::from(2000));
    assert_eq!(to_value(&number("0")), serde_json::Value::from(0));
    assert_eq!(write_json(&number("0.2")), "0.2");
    assert_eq!(to_value(&integer(-7)), serde_json::Value::from(-7));
    assert_eq!(write_json(&integer(i64::MIN)), "-9223372036854775808");
    assert_eq!(write_json(&integer(42)), "42");
}

#[test]
fn fields_are_set() {
    let mut json = Json::Null;
    json.set("a", Json::string("1"));
    json.set("b", Json::array(vec![Json::Bool(true)]));
    json.set("a", Json::string("2"));
    assert_eq!(write_json(&json), "{\"a\":\"2\",\"b\":[true]}");
    assert_eq!(write_json(&Json::object()), "{}");
    assert_eq!(write_json(&Json::object().with("k", Json::Null)), "{\"k\":null}");
}

#[test]
fn the_last_entry_of_a_key_counts() {
    let json = Json::Object(vec![
        ("a".to_string(), Json::string("1")),
        ("b".to_string(), Json::string("2")),
        ("a".to_string(), Json::Null),
        ("a".to_string(), Json::Object(vec![
            ("x".to_string(), Json::Bool(false)),
            ("x".to_string(), Json::Bool(true)),
        ])),
    ]);
    assert_eq!(write_json(&json), "{\"a\":{\"x\":true},\"b\":\"2\"}");
    assert_eq!(json.text_at("b"), Some("2"));
    assert!(json.text_at("a").is_none());
}

#[test]
fn images_are_written_in_base_64() {
    assert_eq!(png_address(b""), "data:image/png;base64,");
    assert_eq!(png_address(b"f"), "data:image/png;base64,Zg==");
    assert_eq!(png_address(b"fo"), "data:image/png;base64,Zm8=");
    assert_eq!(png_address(b"foo"), "data:image/png;base64,Zm9v");
    assert_eq!(png_address(b"foob"), "data:image/png;base64,Zm9vYg==");
    assert_eq!(png_address(&[0xfb, 0xff, 0xbf]), "data:image/png;base64,+/+/");
    for length in 0..20usize {
        let bytes = vec![7u8; length];
        let expected = "data:image/png;base64,".len() + (length + 2) / 3 * 4;
        assert_eq!(png_address(&bytes).len(), expected);
    }
    assert!(fits_memory(0) && fits_memory(1_000_000));
    assert!(!fits_memory(usize::MAX));
}
