use katas::parser::csv::CsvParser;
use katas::parser::error::ParseError;

fn fields(line: &str) -> Vec<String> {
    CsvParser::new(',').parse_line(line).unwrap()
}

#[test]
fn test_csv_parser() {
    let parser = CsvParser::new(',');

    let result = parser.parse_line("name,age,city").unwrap();
    assert_eq!(result, vec!["name", "age", "city"]);

    // The quote behind `Doe` opens a quoted stretch that reaches up to the
    // quote before `New`, so both commas belong to the one field.
    let result = parser.parse_line(r#"John Doe",30,"New York"#).unwrap();
    assert_eq!(result, vec![["John Doe", "30", "New York"].join(",")]);
}

#[test]
fn quoted_fields_lose_their_quotes() {
    let result = fields(r#""John Doe",30,"New York""#);
    assert_eq!(result, vec!["John Doe", "30", "New York"]);
}

#[test]
fn empty_line_has_no_fields() {
    assert_eq!(fields(""), Vec::<String>::new());
}

#[test]
fn line_without_delimiter_is_one_field() {
    assert_eq!(fields("alone"), vec!["alone"]);
    assert_eq!(fields("   "), vec![""]);
}

#[test]
fn n_delimiters_give_n_plus_one_fields() {
    assert_eq!(fields(","), vec!["", ""]);
    assert_eq!(fields("a,,b,"), vec!["a", "", "b", ""]);
    assert_eq!(fields(",,,,").len(), 5);
}

#[test]
fn joined_fields_come_back_trimmed() {
    let parser = CsvParser::new(';');
    let given = [" one", "two ", "  three  ", "", "fi ve"];
    let row = parser.parse_line(&given.join(";")).unwrap();
    assert_eq!(row, vec!["one", "two", "three", "", "fi ve"]);

    let tabs = CsvParser::new('\t');
    assert_eq!(tabs.parse_line("a\tb c\t d").unwrap(), vec!["a", "b c", "d"]);
}

#[test]
fn fields_are_trimmed_of_unicode_white_space() {
    assert_eq!(fields("\u{a0}a\u{2003},\t b \r"), vec!["a", "b"]);
}

#[test]
fn delimiter_inside_quotes_is_kept() {
    assert_eq!(fields(r#""a,b""#), vec!["a,b"]);
    assert_eq!(fields(r#"x,"1,2,3",y"#), vec!["x", "1,2,3", "y"]);
}

#[test]
fn white_space_inside_quotes_is_still_trimmed_at_the_ends() {
    assert_eq!(fields(r#""  padded  ""#), vec!["padded"]);
}

#[test]
fn backslash_in_quotes_makes_the_next_character_literal() {
    assert_eq!(fields(r#""say \"hi\"""#), vec![r#"say "hi""#]);
    assert_eq!(fields(r#""a\\b""#), vec![r#"a\b"#]);
    assert_eq!(fields(r#""a\nb""#), vec!["anb"]);
}

#[test]
fn backslash_outside_quotes_is_an_ordinary_character() {
    assert_eq!(fields(r#"a\,b"#), vec![r#"a\"#, "b"]);
}

#[test]
fn unterminated_quote_fails() {
    let parser = CsvParser::new(',');
    assert_eq!(parser.parse_line("\"abc"), Err(ParseError::UnclosedQuote));
    assert_eq!(parser.parse_line("a,\"b,c"), Err(ParseError::UnclosedQuote));
    assert_eq!(parser.parse_line("\"abc\\\""), Err(ParseError::UnclosedQuote));
}

#[test]
fn quote_as_delimiter_never_splits() {
    let parser = CsvParser::new('"');
    assert_eq!(parser.parse_line("a\"b\"c").unwrap(), vec!["abc"]);
    assert_eq!(parser.parse_line("a\"b"), Err(ParseError::UnclosedQuote));
}

#[test]
fn document_skips_blank_lines() {
    let parser = CsvParser::new(',');
    let rows = parser.parse_document("a,b\n\nc,d").unwrap();
    assert_eq!(rows, vec![vec!["a", "b"], vec!["c", "d"]]);

    let rows = parser.parse_document("a,b\n   \t \nc,d\n").unwrap();
    assert_eq!(rows.len(), 2);
}

#[test]
fn document_of_no_lines_is_empty() {
    let parser = CsvParser::new(',');
    assert_eq!(parser.parse_document("").unwrap(), Vec::<Vec<String>>::new());
    assert_eq!(parser.parse_document("\n\n  \n").unwrap(), Vec::<Vec<String>>::new());
}

#[test]
fn document_takes_both_kinds_of_line_ending() {
    let parser = CsvParser::new(',');
    let rows = parser.parse_document("a,b\r\nc,d\ne").unwrap();
    assert_eq!(rows, vec![vec!["a", "b"], vec!["c", "d"], vec!["e"]]);
}

#[test]
fn document_agrees_with_the_lines_of_std() {
    let parser = CsvParser::new(',');
    for text in ["x\r\ny\r", "x\n\r\ny", "\r\n,\n", "a\rb\nc", "one\n"] {
        let expected: Vec<Vec<String>> = text
            .lines()
            .filter(|line| !line.trim().is_empty())
            .map(|line| parser.parse_line(line).unwrap())
            .collect();
        assert_eq!(parser.parse_document(text).unwrap(), expected);
    }
}

#[test]
fn document_fails_with_the_first_bad_line() {
    let parser = CsvParser::new(',');
    assert_eq!(parser.parse_document("a,b\n\"open\nc,d"), Err(ParseError::UnclosedQuote));
}

#[test]
fn row_error_message() {
    assert_eq!(ParseError::UnclosedQuote.message(), "Unclosed quote");
}
