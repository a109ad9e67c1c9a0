use soil_extract::json::{parse_json, check_number_token, JsonValue};
use soil_extract::soil_report::parse_u32_token;

#[test]
fn parse_simple_object() {
    let v = parse_json("{\"a\": 1, \"b\": \"x\"}").expect("valid JSON");
    match v {
        JsonValue::Object(members) => {
            assert_eq!(members.len(), 2);
            assert_eq!(members[0].0, "a");
            match &members[0].1 {
                JsonValue::Number(t) => assert_eq!(t, "1"),
                _ => panic!("expected a number"),
            }
            assert_eq!(members[1].0, "b");
            match &members[1].1 {
                JsonValue::Text(s) => assert_eq!(s, "x"),
                _ => panic!("expected a string"),
            }
        }
        _ => panic!("expected an object"),
    }
}

#[test]
fn parse_nested_arrays_and_literals() {
    let v = parse_json(" [ null, true, false, [ ], { } ] ").expect("valid JSON");
    match v {
        JsonValue::Array(items) => {
            assert_eq!(items.len(), 5);
            assert!(matches!(items[0], JsonValue::Null));
            assert!(matches!(items[1], JsonValue::Bool(true)));
            assert!(matches!(items[2], JsonValue::Bool(false)));
            assert!(matches!(&items[3], JsonValue::Array(a) if a.is_empty()));
            assert!(matches!(&items[4], JsonValue::Object(m) if m.is_empty()));
        }
        _ => panic!("expected an array"),
    }
}

#[test]
fn parse_number_tokens_kept_verbatim() {
    let v = parse_json("[-1.25e3, 0, 6.5]").expect("valid JSON");
    match v {
        JsonValue::Array(items) => {
            let toks: Vec<&str> = items
                .iter()
                .map(|i| match i {
                    JsonValue::Number(t) => t.as_str(),
                    _ => panic!("expected numbers"),
                })
                .collect();
            assert_eq!(toks, vec!["-1.25e3", "0", "6.5"]);
        }
        _ => panic!("expected an array"),
    }
}

#[test]
fn parse_string_escapes() {
    let v = parse_json("\"a\\n\\t\\\"\\\\\\u0041\"").expect("valid JSON");
    match v {
        JsonValue::Text(s) => assert_eq!(s, "a\n\t\"\\A"),
        _ => panic!("expected a string"),
    }
}

#[test]
fn parse_surrogate_pair_escape() {
    let v = parse_json("\"\\uD83D\\uDE00\"").expect("valid JSON");
    match v {
        JsonValue::Text(s) => assert_eq!(s, "\u{1F600}"),
        _ => panic!("expected a string"),
    }
}

#[test]
fn parse_lone_surrogate_is_rejected() {
    assert!(parse_json("\"\\uD83D\"").is_none());
}

#[test]
fn parse_rejects_trailing_garbage() {
    assert!(parse_json("{\"a\":1} x").is_none());
}

#[test]
fn parse_rejects_unterminated_object() {
    assert!(parse_json("{\"a\":1").is_none());
}

#[test]
fn parse_rejects_leading_zero_number() {
    assert!(parse_json("01").is_none());
}

#[test]
fn parse_rejects_trailing_comma() {
    assert!(parse_json("[1,]").is_none());
    assert!(parse_json("{\"a\":1,}").is_none());
}

#[test]
fn parse_rejects_unescaped_control_character() {
    assert!(parse_json("\"a\nb\"").is_none());
}

#[test]
fn parse_rejects_empty_text() {
    assert!(parse_json("").is_none());
    assert!(parse_json("   ").is_none());
}

#[test]
fn number_token_check() {
    assert!(check_number_token("6.5"));
    assert!(check_number_token("-1.25e3"));
    assert!(check_number_token("0"));
    assert!(!check_number_token("01"));
    assert!(!check_number_token("1."));
    assert!(!check_number_token("abc"));
    assert!(!check_number_token(""));
    assert!(!check_number_token("1e"));
}

#[test]
fn u32_tokens() {
    assert_eq!(parse_u32_token("0"), Some(0));
    assert_eq!(parse_u32_token("42"), Some(42));
    assert_eq!(parse_u32_token("4294967295"), Some(u32::MAX));
    assert_eq!(parse_u32_token("4294967296"), None);
    assert_eq!(parse_u32_token("99999999999999999999"), None);
    assert_eq!(parse_u32_token("-1"), None);
    assert_eq!(parse_u32_token("1.5"), None);
    assert_eq!(parse_u32_token(""), None);
}
