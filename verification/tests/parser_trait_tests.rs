use katas::parser::csv::CsvParser;
use katas::parser::error::ParseError;
use katas::parser::json::JsonParser;
use katas::parser::value::JsonValue;
use katas::parser::Parser;

fn first_two<A, B>(
    first: &impl Parser<A>,
    second: &impl Parser<B>,
    input: &str,
) -> Result<(A, B), ParseError> {
    let (a, rest) = first.parse(input)?;
    let (b, _) = second.parse(rest)?;
    Ok((a, b))
}

#[test]
fn value_parser_as_a_parser() {
    let parser = JsonParser::new();
    assert_eq!(parser.parse("true false"), Ok((JsonValue::Bool(true), " false")));
    assert_eq!(parser.parse("?"), Err(ParseError::UnexpectedCharacter('?', 0)));
}

#[test]
fn row_parser_as_a_parser_leaves_nothing() {
    let parser = CsvParser::new(';');
    assert_eq!(
        parser.parse(" a ;b"),
        Ok((vec!["a".to_string(), "b".to_string()], ""))
    );
    assert_eq!(parser.parse("\"a"), Err(ParseError::UnclosedQuote));
}

#[test]
fn parsers_follow_one_another_on_the_remainder() {
    let values = JsonParser::new();
    let rows = CsvParser::new(',');
    assert_eq!(
        first_two(&values, &values, "[1] null"),
        Ok((JsonValue::Array(vec![JsonValue::Number("1".to_string())]), JsonValue::Null))
    );
    assert_eq!(
        first_two(&values, &rows, "null,x , y"),
        Ok((JsonValue::Null, vec!["".to_string(), "x".to_string(), "y".to_string()]))
    );
    assert_eq!(first_two(&values, &values, "1"), Err(ParseError::UnexpectedEndOfInput));
}
