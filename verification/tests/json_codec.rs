use portfolio_core::json::Json;

fn parse(s: &str) -> Json {
    portfolio_core::json::parse_json(s).expect("should parse")
}

#[test]
fn parses_scalars() {
    assert!(matches!(parse("null"), Json::Null));
    assert!(matches!(parse("true"), Json::Bool(true)));
    assert!(matches!(parse("false"), Json::Bool(false)));
    assert!(matches!(parse("0"), Json::Int(0)));
    assert!(matches!(parse("42"), Json::Int(42)));
    assert!(matches!(parse("-7"), Json::Int(-7)));
    assert!(matches!(parse("  12  "), Json::Int(12)));
}

#[test]
fn parses_i64_bounds() {
    assert!(matches!(parse("9223372036854775807"), Json::Int(9223372036854775807)));
    assert!(matches!(parse("-9223372036854775808"), Json::Int(-9223372036854775808)));
    match parse("9223372036854775808") {
        Json::Num(raw) => assert_eq!(raw, "9223372036854775808"),
        other => panic!("expected raw numeric literal, got {:?}", kind_of(&other)),
    }
}

#[test]
fn keeps_non_integer_numbers_raw() {
    match parse("1.5") {
        Json::Num(raw) => assert_eq!(raw, "1.5"),
        _ => panic!("expected raw numeric literal"),
    }
    match parse("-2.25e10") {
        Json::Num(raw) => assert_eq!(raw, "-2.25e10"),
        _ => panic!("expected raw numeric literal"),
    }
    match parse("1e3") {
        Json::Num(raw) => assert_eq!(raw, "1e3"),
        _ => panic!("expected raw numeric literal"),
    }
}

#[test]
fn parses_strings_and_escapes() {
    match parse("\"hello\"") {
        Json::Str(s) => assert_eq!(s, "hello"),
        _ => panic!("expected string"),
    }
    match parse("\"a\\\"b\\\\c\\/d\\n\\t\"") {
        Json::Str(s) => assert_eq!(s, "a\"b\\c/d\n\t"),
        _ => panic!("expected string"),
    }
    match parse("\"\\u0041\\u00e9\"") {
        Json::Str(s) => assert_eq!(s, "Aé"),
        _ => panic!("expected string"),
    }
    // a surrogate pair denotes one astral character
    match parse("\"\\ud83d\\ude00\"") {
        Json::Str(s) => assert_eq!(s, "\u{1F600}"),
        _ => panic!("expected string"),
    }
}

#[test]
fn parses_arrays_and_objects() {
    match parse("[1, 2, 3]") {
        Json::Arr(a) => {
            assert_eq!(a.len(), 3);
            assert!(matches!(a[0], Json::Int(1)));
            assert!(matches!(a[2], Json::Int(3)));
        }
        _ => panic!("expected array"),
    }
    match parse("[]") {
        Json::Arr(a) => assert_eq!(a.len(), 0),
        _ => panic!("expected array"),
    }
    let v = parse(" { \"a\" : 1 , \"b\" : [true, null] } ");
    assert!(matches!(v.get("a"), Some(Json::Int(1))));
    match v.get("b") {
        Some(Json::Arr(a)) => assert_eq!(a.len(), 2),
        _ => panic!("expected array member"),
    }
    assert!(v.get("c").is_none());
}

#[test]
fn first_duplicate_key_wins() {
    let v = parse("{\"k\": 1, \"k\": 2}");
    assert!(matches!(v.get("k"), Some(Json::Int(1))));
}

#[test]
fn rejects_malformed_documents() {
    for text in [
        "", "   ", "{", "}", "[1,", "[1 2]", "{\"a\":}", "\"unterminated", "tru", "nul",
        "01a", "1 2", "{\"a\" 1}", "\"bad\\escape\"", "\"\\u12g4\"", "\"\\ud83d\"",
        "\"ctrl\u{1}char\"", "[1,]", "{\"a\":1,}", "-", "+1", ".5", "1.", "1e", "1e+",
    ] {
        assert!(
            portfolio_core::json::parse_json(text).is_none(),
            "should reject {:?}",
            text
        );
    }
}

#[test]
fn prints_canonical_text() {
    assert_eq!(parse("null").to_text(), "null");
    assert_eq!(parse("true").to_text(), "true");
    assert_eq!(parse("-42").to_text(), "-42");
    assert_eq!(parse("[ 1 , \"x\" , null ]").to_text(), "[1,\"x\",null]");
    assert_eq!(
        parse("{ \"a\": 1, \"b\": [true] }").to_text(),
        "{\"a\":1,\"b\":[true]}"
    );
    assert_eq!(parse("\"a\\\"b\"").to_text(), "\"a\\\"b\"");
    assert_eq!(parse("\"\\u0007\"").to_text(), "\"\\u0007\"");
    assert_eq!(parse("1.5").to_text(), "1.5");
}

#[test]
fn round_trips_through_text() {
    for text in [
        "null",
        "{\"a\":1,\"b\":[true,null,\"x\"],\"c\":{\"d\":-9}}",
        "[\"\\n\",\"é\",\"\u{1F600}\"]",
        "9223372036854775808",
        "[0,1.25,-3e2]",
    ] {
        let v = parse(text);
        let printed = v.to_text();
        let reparsed = parse(&printed);
        assert_eq!(printed, reparsed.to_text());
    }
}

#[test]
fn agrees_with_serde_json() {
    let texts = [
        "{\"name\":\"weather\",\"values\":[1,2,3],\"ok\":true}",
        "[{\"k\":\"v\"},null,false,123]",
        "\"caf\\u00e9 \\ud83d\\ude00\"",
    ];
    for text in texts {
        let ours = parse(text);
        let theirs: serde_json::Value = serde_json::from_str(text).expect("serde parse");
        // our canonical text must mean the same document to serde_json
        let reread: serde_json::Value =
            serde_json::from_str(&ours.to_text()).expect("serde reparse");
        assert_eq!(theirs, reread);
    }
}

#[test]
fn uint_string_prints_decimal() {
    assert_eq!(portfolio_core::json::uint_string(0), "0");
    assert_eq!(portfolio_core::json::uint_string(10), "10");
    assert_eq!(portfolio_core::json::uint_string(65535), "65535");
    assert_eq!(
        portfolio_core::json::uint_string(18446744073709551615),
        "18446744073709551615"
    );
}

#[test]
fn str_eq_compares_characters() {
    assert!(portfolio_core::json::str_eq("abc", "abc"));
    assert!(!portfolio_core::json::str_eq("abc", "abd"));
    assert!(!portfolio_core::json::str_eq("abc", "ab"));
    assert!(portfolio_core::json::str_eq("", ""));
    assert!(portfolio_core::json::str_eq("émoji 😀", "émoji 😀"));
}

fn kind_of(v: &Json) -> &'static str {
    match v {
        Json::Null => "null",
        Json::Bool(_) => "bool",
        Json::Int(_) => "int",
        Json::Num(_) => "num",
        Json::Str(_) => "str",
        Json::Arr(_) => "arr",
        Json::Obj(_) => "obj",
    }
}
