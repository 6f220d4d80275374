use katas::parser::error::ParseError;
use katas::parser::json::{JsonParser, DEFAULT_MAX_DEPTH};
use katas::parser::value::JsonValue;

fn number(value: &JsonValue) -> f64 {
    match value {
        JsonValue::Number(text) => text.parse().unwrap(),
        other => panic!("not a number: {:?}", other),
    }
}

fn text(value: &str) -> JsonValue {
    JsonValue::String(value.to_string())
}

fn num(literal: &str) -> JsonValue {
    JsonValue::Number(literal.to_string())
}

fn failure(input: &str) -> ParseError {
    JsonParser::parse_value(input).unwrap_err()
}

#[test]
fn test_json_parser() {
    let (value, _) = JsonParser::parse_value("123.45").unwrap();
    assert_eq!(number(&value), 123.45);

    let (value, _) = JsonParser::parse_value(r#""hello world""#).unwrap();
    assert_eq!(value, JsonValue::String("hello world".to_string()));

    let (value, _) = JsonParser::parse_value("[1, 2, 3]").unwrap();
    match value {
        JsonValue::Array(items) => {
            let numbers: Vec<f64> = items.iter().map(number).collect();
            assert_eq!(numbers, vec![1.0, 2.0, 3.0]);
        }
        other => panic!("not an array: {:?}", other),
    }
}

#[test]
fn null_and_booleans() {
    assert_eq!(JsonParser::parse_value("null"), Ok((JsonValue::Null, "")));
    assert_eq!(JsonParser::parse_value("true"), Ok((JsonValue::Bool(true), "")));
    assert_eq!(JsonParser::parse_value("false"), Ok((JsonValue::Bool(false), "")));
}

#[test]
fn number_keeps_its_text_and_leaves_nothing() {
    assert_eq!(JsonParser::parse_value("123.45"), Ok((num("123.45"), "")));
    assert_eq!(JsonParser::parse_value("-7"), Ok((num("-7"), "")));
    assert_eq!(JsonParser::parse_value("5."), Ok((num("5."), "")));
    assert_eq!(JsonParser::parse_value("-.5"), Ok((num("-.5"), "")));
    assert_eq!(JsonParser::parse_value("007"), Ok((num("007"), "")));
}

#[test]
fn every_number_text_is_a_float_of_std() {
    for input in ["0", "-0", "12.5", "5.", "-.25", "9007199254740993", "00.10"] {
        let (value, rest) = JsonParser::parse_value(input).unwrap();
        assert_eq!(rest, "");
        assert_eq!(number(&value), input.parse::<f64>().unwrap());
    }
}

#[test]
fn number_run_stops_at_the_second_point_and_at_a_later_minus() {
    assert_eq!(JsonParser::parse_value("1.2.3"), Ok((num("1.2"), ".3")));
    assert_eq!(JsonParser::parse_value("1-2"), Ok((num("1"), "-2")));
    assert_eq!(JsonParser::parse_value("12e3"), Ok((num("12"), "e3")));
}

#[test]
fn invalid_numbers() {
    assert_eq!(failure("-"), ParseError::InvalidNumber("-".to_string()));
    assert_eq!(failure("-."), ParseError::InvalidNumber("-.".to_string()));
    assert_eq!(failure("-x"), ParseError::InvalidNumber("-".to_string()));
    // number characters outside ASCII join the run, and make it no number
    assert_eq!(failure("1\u{0663}"), ParseError::InvalidNumber("1\u{0663}".to_string()));
    assert_eq!(failure("2\u{00bd},"), ParseError::InvalidNumber("2\u{00bd}".to_string()));
}

#[test]
fn number_rule_on_its_own() {
    let chars: Vec<char> = "  x".chars().collect();
    assert_eq!(
        JsonParser::parse_number(&chars, 0),
        Err(ParseError::InvalidNumber(String::new()))
    );
    let chars: Vec<char> = ".".chars().collect();
    assert_eq!(
        JsonParser::parse_number(&chars, 0),
        Err(ParseError::InvalidNumber(".".to_string()))
    );
    let chars: Vec<char> = " 42 ".chars().collect();
    assert_eq!(JsonParser::parse_number(&chars, 0), Ok((num("42"), 3)));
}

#[test]
fn string_value() {
    assert_eq!(JsonParser::parse_value("\"hello world\""), Ok((text("hello world"), "")));
    assert_eq!(JsonParser::parse_value("\"\""), Ok((text(""), "")));
    assert_eq!(JsonParser::parse_value("\"a\" tail"), Ok((text("a"), " tail")));
}

#[test]
fn string_escapes() {
    let (value, rest) = JsonParser::parse_value(r#""a\nb\tc\rd\"e\\f""#).unwrap();
    assert_eq!(value, text("a\nb\tc\rd\"e\\f"));
    assert_eq!(rest, "");
}

#[test]
fn string_errors() {
    assert_eq!(failure(r#""a\qb""#), ParseError::InvalidEscape('q'));
    assert_eq!(failure(r#""a\u0041""#), ParseError::InvalidEscape('u'));
    assert_eq!(failure("\"abc"), ParseError::UnclosedString);
    assert_eq!(failure("\"abc\\"), ParseError::UnclosedString);
    assert_eq!(failure("\"abc\\\""), ParseError::UnclosedString);
}

#[test]
fn array_of_numbers() {
    let (value, rest) = JsonParser::parse_value("[1, 2, 3]").unwrap();
    assert_eq!(value, JsonValue::Array(vec![num("1"), num("2"), num("3")]));
    assert_eq!(rest, "");
}

#[test]
fn empty_containers() {
    assert_eq!(JsonParser::parse_value("[]"), Ok((JsonValue::Array(vec![]), "")));
    assert_eq!(JsonParser::parse_value("[ \n ]"), Ok((JsonValue::Array(vec![]), "")));
    assert_eq!(JsonParser::parse_value("{}"), Ok((JsonValue::Object(vec![]), "")));
    assert_eq!(JsonParser::parse_value("{ }x"), Ok((JsonValue::Object(vec![]), "x")));
}

#[test]
fn object_keeps_insertion_order() {
    let (value, rest) = JsonParser::parse_value("{\"a\":1,\"b\":2}").unwrap();
    assert_eq!(
        value,
        JsonValue::Object(vec![("a".to_string(), num("1")), ("b".to_string(), num("2"))])
    );
    assert_eq!(rest, "");
    match value {
        JsonValue::Object(entries) => {
            assert_eq!(number(&entries[0].1), 1.0);
            assert_eq!(number(&entries[1].1), 2.0);
        }
        other => panic!("not an object: {:?}", other),
    }
}

#[test]
fn object_keeps_repeated_keys() {
    let (value, _) = JsonParser::parse_value(r#"{"k": true, "k": null, "a": "k"}"#).unwrap();
    assert_eq!(
        value,
        JsonValue::Object(vec![
            ("k".to_string(), JsonValue::Bool(true)),
            ("k".to_string(), JsonValue::Null),
            ("a".to_string(), text("k")),
        ])
    );
}

#[test]
fn nested_values_and_white_space() {
    let input = " \t{ \"list\" : [ 1 , [ ] , { \"x\" : null } ] ,\n \"s\" : \"t\" }  rest";
    let (value, rest) = JsonParser::parse_value(input).unwrap();
    assert_eq!(
        value,
        JsonValue::Object(vec![
            (
                "list".to_string(),
                JsonValue::Array(vec![
                    num("1"),
                    JsonValue::Array(vec![]),
                    JsonValue::Object(vec![("x".to_string(), JsonValue::Null)]),
                ])
            ),
            ("s".to_string(), text("t")),
        ])
    );
    assert_eq!(rest, "  rest");
}

#[test]
fn remainder_is_what_follows_the_value() {
    assert_eq!(JsonParser::parse_value("null, 1"), Ok((JsonValue::Null, ", 1")));
    assert_eq!(JsonParser::parse_value("truest"), Ok((JsonValue::Bool(true), "st")));
    assert_eq!(JsonParser::parse_value("[1]\u{e9}\u{4e2d}"), Ok((JsonValue::Array(vec![num("1")]), "\u{e9}\u{4e2d}")));
    assert_eq!(
        JsonParser::parse_value("\"\u{e9}\u{1f600}\"\u{4e2d}x"),
        Ok((text("\u{e9}\u{1f600}"), "\u{4e2d}x"))
    );
}

#[test]
fn missing_colon_is_an_unexpected_character() {
    assert_eq!(failure("{\"a\" 1}"), ParseError::UnexpectedCharacter('1', 5));
}

#[test]
fn trailing_comma_fails() {
    assert_eq!(failure("[1,]"), ParseError::UnexpectedCharacter(']', 3));
    assert_eq!(failure("{\"a\":1,}"), ParseError::UnexpectedCharacter('}', 7));
}

#[test]
fn missing_comma_fails() {
    assert_eq!(failure("[1 2]"), ParseError::UnexpectedCharacter('2', 3));
    assert_eq!(failure("{\"a\":1 \"b\":2}"), ParseError::UnexpectedCharacter('"', 7));
}

#[test]
fn leading_comma_fails() {
    assert_eq!(failure("[,1]"), ParseError::UnexpectedCharacter(',', 1));
}

#[test]
fn key_must_be_a_string() {
    assert_eq!(failure("{a:1}"), ParseError::UnexpectedCharacter('a', 1));
    assert_eq!(failure("{1:1}"), ParseError::UnexpectedCharacter('1', 1));
    assert_eq!(failure("{\"a"), ParseError::UnclosedString);
}

#[test]
fn misspelt_literals() {
    assert_eq!(failure("nul"), ParseError::UnexpectedCharacter('n', 0));
    assert_eq!(failure("  tru"), ParseError::UnexpectedCharacter('t', 2));
    assert_eq!(failure("[false, fals]"), ParseError::UnexpectedCharacter('f', 8));
}

#[test]
fn end_of_input() {
    assert_eq!(failure(""), ParseError::UnexpectedEndOfInput);
    assert_eq!(failure("  \n "), ParseError::UnexpectedEndOfInput);
    assert_eq!(failure("["), ParseError::UnexpectedEndOfInput);
    assert_eq!(failure("[1,"), ParseError::UnexpectedEndOfInput);
    assert_eq!(failure("{\"a\":"), ParseError::UnexpectedEndOfInput);
}

#[test]
fn end_of_input_where_a_character_is_required() {
    assert_eq!(failure("[1"), ParseError::UnexpectedCharacter('\0', 2));
    assert_eq!(failure("{\"a\""), ParseError::UnexpectedCharacter('\0', 4));
    assert_eq!(failure("{"), ParseError::UnexpectedCharacter('\0', 1));
}

#[test]
fn other_first_characters() {
    assert_eq!(failure("x"), ParseError::UnexpectedCharacter('x', 0));
    assert_eq!(failure(" +1"), ParseError::UnexpectedCharacter('+', 1));
    assert_eq!(failure("]"), ParseError::UnexpectedCharacter(']', 0));
    assert_eq!(failure("[\u{4e2d}]"), ParseError::UnexpectedCharacter('\u{4e2d}', 1));
}

#[test]
fn positions_count_characters() {
    assert_eq!(failure("[\"\u{e9}\u{4e2d}\", ?]"), ParseError::UnexpectedCharacter('?', 7));
}

#[test]
fn deep_nesting_fails_gracefully() {
    let input = "[".repeat(10_000);
    assert_eq!(failure(&input), ParseError::TooDeeplyNested);
    let mut balanced = "[".repeat(10_000);
    balanced.push_str(&"]".repeat(10_000));
    assert_eq!(failure(&balanced), ParseError::TooDeeplyNested);
    let objects = "{\"a\":".repeat(10_000);
    assert_eq!(failure(&objects), ParseError::TooDeeplyNested);
}

#[test]
fn nesting_up_to_the_limit_is_read() {
    assert!(DEFAULT_MAX_DEPTH >= 64);
    let mut input = "[".repeat(DEFAULT_MAX_DEPTH);
    input.push_str(&"]".repeat(DEFAULT_MAX_DEPTH));
    assert!(JsonParser::parse_value(&input).is_ok());
    let mut input = "[".repeat(DEFAULT_MAX_DEPTH + 1);
    input.push_str(&"]".repeat(DEFAULT_MAX_DEPTH + 1));
    assert_eq!(failure(&input), ParseError::TooDeeplyNested);
}

#[test]
fn nesting_limit_can_be_set() {
    assert_eq!(JsonParser::parse_value_within("1", 0), Ok((num("1"), "")));
    assert_eq!(JsonParser::parse_value_within("[]", 0), Err(ParseError::TooDeeplyNested));
    assert_eq!(JsonParser::parse_value_within("{}", 0), Err(ParseError::TooDeeplyNested));
    assert_eq!(
        JsonParser::parse_value_within("[{}]", 1),
        Err(ParseError::TooDeeplyNested)
    );
    assert!(JsonParser::parse_value_within("[{}, [], {\"a\": 1}]", 2).is_ok());
    assert_eq!(
        JsonParser::parse_value_within("[{}, [], {\"a\": []}]", 2),
        Err(ParseError::TooDeeplyNested)
    );
    assert!(JsonParser::parse_value_within("[{}, [], {\"a\": []}]", 3).is_ok());
    let mut deep = "[".repeat(500);
    deep.push_str(&"]".repeat(500));
    assert!(JsonParser::parse_value_within(&deep, 500).is_ok());
}

#[test]
fn rules_on_their_own() {
    let chars: Vec<char> = " null true \"s\" [1] {}".chars().collect();
    assert_eq!(JsonParser::skip_whitespace(&chars, 0), 1);
    assert_eq!(JsonParser::skip_whitespace(&chars, 1), 1);
    assert_eq!(JsonParser::parse_null(&chars, 0), Ok((JsonValue::Null, 5)));
    assert_eq!(JsonParser::parse_bool(&chars, 5), Ok((JsonValue::Bool(true), 10)));
    assert_eq!(JsonParser::parse_string(&chars, 10), Ok((text("s"), 14)));
    assert_eq!(JsonParser::parse_text(&chars, 10), Ok(("s".to_string(), 14)));
    assert_eq!(
        JsonParser::parse_array(&chars, 14, 0),
        Ok((JsonValue::Array(vec![num("1")]), 18))
    );
    assert_eq!(JsonParser::parse_object(&chars, 18, 0), Ok((JsonValue::Object(vec![]), 21)));
    assert_eq!(
        JsonParser::parse_value_at(&chars, 14, 1),
        Ok((JsonValue::Array(vec![num("1")]), 18))
    );
    assert_eq!(
        JsonParser::parse_null(&chars, 5),
        Err(ParseError::UnexpectedCharacter('t', 6))
    );
    assert_eq!(
        JsonParser::parse_array(&chars, 0, 3),
        Err(ParseError::UnexpectedCharacter('n', 1))
    );
    assert_eq!(
        JsonParser::parse_object(&chars, 21, 3),
        Err(ParseError::UnexpectedCharacter('\0', 21))
    );
}

#[test]
fn error_messages() {
    assert_eq!(
        ParseError::UnexpectedCharacter('x', 12).message(),
        "Unexpected character 'x' at position 12"
    );
    assert_eq!(
        ParseError::UnexpectedCharacter('y', 0).message(),
        "Unexpected character 'y' at position 0"
    );
    assert_eq!(ParseError::UnexpectedEndOfInput.message(), "Unexpected end of input");
    assert_eq!(
        ParseError::InvalidNumber("-.".to_string()).message(),
        "Invalid number: -."
    );
    assert_eq!(ParseError::InvalidEscape('q').message(), "Invalid escape sequence: \\q");
    assert_eq!(ParseError::UnclosedString.message(), "Unclosed string");
    assert_eq!(ParseError::TooDeeplyNested.message(), "Too deeply nested");
}
