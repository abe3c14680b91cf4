use codex_server::json::{
    json_as_bool, json_as_u64, json_get, json_set, json_str, json_to_string, json_u64,
    parse_json, parse_u64_digits, Json,
};

#[test]
fn parse_and_reserialize_simple_document() {
    // would fail if parsing handed the bytes back unchanged: the output is
    // rebuilt from the document tree with normalized spacing
    let t = parse_json(b" { \"a\" : [ 1 , true , null , \"x\" ] } ").expect("parses");
    assert_eq!(json_to_string(&t), "{\"a\":[1,true,null,\"x\"]}");
}

#[test]
fn parse_rejects_malformed_bytes() {
    assert!(parse_json(b"{\"a\":").is_none());
    assert!(parse_json(b"").is_none());
    assert!(parse_json(b"data: x").is_none());
}

#[test]
fn field_lookup_and_accessors() {
    let t = parse_json(b"{\"n\":7,\"s\":\"v\",\"b\":false}").expect("parses");
    let n = json_get(&t, "n").expect("n present");
    assert_eq!(json_as_u64(n), Some(7));
    let b = json_get(&t, "b").expect("b present");
    assert_eq!(json_as_bool(b), Some(false));
    assert!(json_get(&t, "missing").is_none());
    assert_eq!(json_as_u64(json_get(&t, "s").expect("s present")), None);
}

#[test]
fn set_field_replaces_and_appends() {
    let t = parse_json(b"{\"a\":1,\"b\":2}").expect("parses");
    let t = json_set(t, "a", json_str("x"));
    let t = json_set(t, "c", Json::Bool(true));
    let s = json_to_string(&t);
    assert!(s.contains("\"a\":\"x\""));
    assert!(s.contains("\"b\":2"));
    assert!(s.contains("\"c\":true"));
}

#[test]
fn string_escaping_round_trip() {
    let t = parse_json(b"{\"s\":\"a\\\"b\\\\c\\nd\\te\\u0001f\"}").expect("parses");
    assert_eq!(json_to_string(&t), "{\"s\":\"a\\\"b\\\\c\\nd\\te\\u0001f\"}");
}

#[test]
fn numbers_keep_their_token_text() {
    let t = parse_json(b"{\"x\":3.5,\"y\":-2,\"z\":18446744073709551615}").expect("parses");
    let x = json_get(&t, "x").expect("x");
    assert_eq!(json_as_u64(x), None);
    let y = json_get(&t, "y").expect("y");
    assert_eq!(json_as_u64(y), None);
    let z = json_get(&t, "z").expect("z");
    assert_eq!(json_as_u64(z), Some(u64::MAX));
}

#[test]
fn decimal_parse_exact_values() {
    assert_eq!(parse_u64_digits("0"), Some(0));
    assert_eq!(parse_u64_digits("42"), Some(42));
    assert_eq!(parse_u64_digits("18446744073709551615"), Some(u64::MAX));
    assert_eq!(parse_u64_digits("18446744073709551616"), None);
    assert_eq!(parse_u64_digits(""), None);
    assert_eq!(parse_u64_digits("1a"), None);
    assert_eq!(parse_u64_digits("-1"), None);
}

#[test]
fn decimal_format_exact_values() {
    assert_eq!(json_to_string(&json_u64(0)), "0");
    assert_eq!(json_to_string(&json_u64(10)), "10");
    assert_eq!(json_to_string(&json_u64(18446744073709551615)), "18446744073709551615");
}
