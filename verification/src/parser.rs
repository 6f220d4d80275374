//! Two parsers over in-memory text: delimited rows and nested values.
//!
//! Both read the whole input as one immutable sequence of characters and
//! share one error type, whose positions count characters from the start of
//! the input.

use vstd::prelude::*;

use crate::parser::csv::{row_fields, row_outcome, CsvParser};
use crate::parser::error::ParseError;
use crate::parser::grammar::value_in;
use crate::parser::json::{parse_outcome, JsonParser, DEFAULT_MAX_DEPTH};
use crate::parser::value::JsonValue;

pub mod csv;
pub mod error;
pub mod grammar;
pub mod json;
pub mod laws;
pub mod value;

verus! {

/// A parser that reads a `T` from the start of a text and hands back what
/// of the text it did not use, so that parsers can follow one another.
pub trait Parser<T> {
    /// Reads a `T` from the start of `input`. What is handed back is a
    /// suffix of `input`: nothing is invented and nothing is reordered.
    fn parse<'a>(&self, input: &'a str) -> (result: Result<(T, &'a str), ParseError>)
        ensures
            result matches Ok((_, rest)) ==> rest@.is_suffix_of(input@),
    ;
}

impl Parser<JsonValue> for JsonParser {
    /// Reads a value, as [`JsonParser::parse_value`] does.
    fn parse<'a>(&self, input: &'a str) -> (result: Result<(JsonValue, &'a str), ParseError>)
        ensures
            parse_outcome(result) == value_in(input@, DEFAULT_MAX_DEPTH as nat),
    {
        JsonParser::parse_value(input)
    }
}

impl Parser<Vec<String>> for CsvParser {
    /// Reads `input` as one line, as [`CsvParser::parse_line`] does, and
    /// leaves nothing of it.
    fn parse<'a>(&self, input: &'a str) -> (result: Result<(Vec<String>, &'a str), ParseError>)
        ensures
            match result {
                Ok((row, rest)) => row_outcome(Ok(row)) == row_fields(input@, self.delimiter())
                    && rest@.len() == 0,
                Err(error) => row_outcome(Err(error)) == row_fields(input@, self.delimiter()),
            },
    {
        match self.parse_line(input) {
            Ok(row) => {
                let rest = input.substring_char(input.unicode_len(), input.unicode_len());
                Ok((row, rest))
            },
            Err(error) => Err(error),
        }
    }
}

} // verus!
