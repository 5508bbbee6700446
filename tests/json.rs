use std::collections::VecDeque;

use cc_curl::json::{JsonError, JsonObject, Token};

#[test]
fn test_tokenize() {
    let input = r#"{
            "key": "value",
            [
                1,
                2,
                3,
            ]
        }"#;

    let expected = VecDeque::from([
        Token::OpenBrace,
        Token::Str("key".to_string()),
        Token::Colon,
        Token::Str("value".to_string()),
        Token::OpenBracket,
        Token::Number("1".to_string()),
        Token::Number("2".to_string()),
        Token::Number("3".to_string()),
        Token::ClosedBracket,
        Token::ClosedBrace,
    ]);

    let actual = Token::tokenize(&input).unwrap();

    assert_eq!(actual, expected);
}

#[test]
fn test_parse_simple_object() {
    let input = "{}";
    let expected = JsonObject::new();

    let actual = JsonObject::from_str(&input).unwrap();
    assert_eq!(actual, expected);
}

#[test]
fn test_parse_str() {
    for (input, expected) in [
        (r#""a string""#, Some("a string")),
        (r#""""#, Some("")),
        (
            r#""A string with matching \"escaped\" quotes in the middle""#,
            Some(r#"A string with matching \"escaped\" quotes in the middle"#),
        ),
        (
            r#""A string with a single \"escaped quote in the middle""#,
            Some(r#"A string with a single \"escaped quote in the middle"#),
        ),
        (
            r#""A string with characters after the closing quote"abc"#,
            Some("A string with characters after the closing quote"),
        ),
        (
            r#"abc"A string with characters before the opening quote""#,
            None,
        ),
        (r#"Not a string; no open quotes""#, None),
        (r#""Not a string; no closing quotes"#, None),
        (r#"\"Not a string; escaped open quotes""#, None),
        (r#""Not a string; escaped closing quotes\""#, None),
    ] {
        let actual = Token::parse_str(&input);
        assert_eq!(actual, expected.map(|s| s.to_string()));
    }
}

#[test]
fn parse_number_takes_leading_digits() {
    assert_eq!(Token::parse_number("123abc"), Some("123".to_string()));
    assert_eq!(Token::parse_number("abc"), None);
    assert_eq!(Token::parse_number(""), None);
}

#[test]
fn number_passes_over_the_character_after_it() {
    let actual = Token::tokenize("[1]").unwrap();
    assert_eq!(actual, VecDeque::from([Token::OpenBracket, Token::Number("1".to_string())]));
}

#[test]
fn from_str_skips_leading_white_space() {
    assert_eq!(JsonObject::from_str(" \n\t{\"a\": 1}").unwrap().len(), 0);
}

#[test]
fn from_str_rejects_non_object() {
    assert_eq!(JsonObject::from_str("[1, 2]"), Err(JsonError::NotAnObject));
    assert_eq!(JsonObject::from_str("   "), Err(JsonError::NotAnObject));
}

#[test]
fn parse_from_tokens_is_not_supported() {
    let tokens = Token::tokenize("{}").unwrap();
    assert_eq!(JsonObject::parse(tokens), Err(JsonError::NotAnObject));
}
