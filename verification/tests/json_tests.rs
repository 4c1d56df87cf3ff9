use editcore::json::{parse, ParseErrorKind, Value};

fn num(v: &Value) -> f64 {
    v.as_number_text().unwrap().parse::<f64>().unwrap()
}

#[test]
fn test_null() {
    assert!(parse("null").unwrap().is_null());
}

#[test]
fn test_bool() {
    assert_eq!(parse("true").unwrap().as_bool(), Some(true));
    assert_eq!(parse("false").unwrap().as_bool(), Some(false));
}

#[test]
fn test_number() {
    assert_eq!(num(&parse("0").unwrap()), 0.0);
    assert_eq!(num(&parse("123").unwrap()), 123.0);
    assert_eq!(num(&parse("-456").unwrap()), -456.0);
    assert_eq!(num(&parse("3.15").unwrap()), 3.15);
    assert_eq!(num(&parse("1e10").unwrap()), 1e10);
    assert_eq!(num(&parse("1.5e-3").unwrap()), 0.0015);
}

#[test]
fn test_string() {
    assert_eq!(parse(r#""hello""#).unwrap().as_str().map(|s| s.as_str()), Some("hello"));
    assert_eq!(
        parse(r#""hello\nworld""#).unwrap().as_str().map(|s| s.as_str()),
        Some("hello\nworld")
    );
    assert_eq!(
        parse(r#""\u0041\u0042\u0043""#).unwrap().as_str().map(|s| s.as_str()),
        Some("ABC")
    );
}

#[test]
fn test_array() {
    let value = parse("[1, 2, 3]").unwrap();
    let arr = value.as_array().unwrap();
    assert_eq!(arr.len(), 3);
    assert_eq!(num(&arr[0]), 1.0);
    assert_eq!(num(&arr[1]), 2.0);
    assert_eq!(num(&arr[2]), 3.0);
}

#[test]
fn test_object() {
    let value = parse(r#"{"a": 1, "b": true}"#).unwrap();
    let obj = value.as_object().unwrap();
    assert_eq!(obj.get_number_text("a").map(|s| s.as_str()), Some("1"));
    assert_eq!(obj.get_bool("b"), Some(true));
}

#[test]
fn test_comments() {
    let input = r#"{
        // Line comment
        "a": 1,
        /* Block comment */
        "b": 2
    }"#;
    let value = parse(input).unwrap();
    let obj = value.as_object().unwrap();
    assert_eq!(obj.get_number_text("a").map(|s| s.as_str()), Some("1"));
    assert_eq!(obj.get_number_text("b").map(|s| s.as_str()), Some("2"));
}

#[test]
fn test_trailing_comma() {
    assert!(parse("[1, 2, 3,]").is_ok());
    assert!(parse(r#"{"a": 1,}"#).is_ok());
}

#[test]
fn test_nested() {
    let input = r#"{
        "nested": {
            "array": [1, 2, {"deep": true}]
        }
    }"#;
    let value = parse(input).unwrap();
    let obj = value.as_object().unwrap();
    let nested = obj.get_object("nested").unwrap();
    let array = nested.get_array("array").unwrap();
    assert_eq!(array.len(), 3);
    let deep_obj = array[2].as_object().unwrap();
    assert_eq!(deep_obj.get_bool("deep"), Some(true));
}

#[test]
fn test_max_depth() {
    let mut input = String::new();
    for _ in 0..100 {
        input.push('[');
    }
    for _ in 0..100 {
        input.push(']');
    }
    assert!(parse(&input).is_err());
    assert_eq!(parse(&input).unwrap_err().kind, ParseErrorKind::MaxDepth);
}

#[test]
fn test_invalid_json() {
    assert!(parse("").is_err());
    assert!(parse("{").is_err());
    assert!(parse(r#"{"a":}"#).is_err());
    assert!(parse(r#"{5:1}"#).is_err());
    assert!(parse("[1, 2,").is_err());
    assert!(parse(r#""unterminated"#).is_err());
}

#[test]
fn test_control_chars() {
    // Control characters must be escaped
    assert!(parse("\"\x01\"").is_err());
}

#[test]
fn test_unicode() {
    // Test emoji (surrogate pair)
    assert_eq!(
        parse(r#""\uD83D\uDE00""#).unwrap().as_str().map(|s| s.as_str()),
        Some("😀")
    );
    // Test regular unicode
    assert_eq!(parse(r#""\u2764""#).unwrap().as_str().map(|s| s.as_str()), Some("❤"));
}

#[test]
fn duplicate_keys_first_wins() {
    let value = parse(r#"{"a": 1, "a": 2}"#).unwrap();
    let obj = value.as_object().unwrap();
    assert_eq!(obj.get_number_text("a").map(|s| s.as_str()), Some("1"));
    assert_eq!(obj.len(), 2);
    assert!(!obj.is_empty());
    assert!(obj.get("missing").is_none());
}

#[test]
fn error_positions_are_one_based() {
    let err = parse("[1,\n  oops]").unwrap_err();
    assert_eq!(err.kind, ParseErrorKind::Syntax);
    assert_eq!(err.line, 2);
    assert_eq!(err.column, 3);
}
