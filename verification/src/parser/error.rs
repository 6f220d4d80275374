//! The errors of both parsers.

use vstd::prelude::*;

use crate::text::{decimal, push_decimal};

verus! {

/// Why a parse failed.
#[derive(Debug, PartialEq)]
pub enum ParseError {
    /// The character at the given position is not what the grammar asks for
    /// there. At the end of the input the character is `'\0'` and the
    /// position is the input's length.
    UnexpectedCharacter(char, usize),
    /// The input ended where a value had to begin.
    UnexpectedEndOfInput,
    /// The text of a number that is no decimal number.
    InvalidNumber(String),
    /// A backslash in a string was followed by this character, which stands
    /// for nothing.
    InvalidEscape(char),
    /// A string was still open at the end of the input.
    UnclosedString,
    /// A quoted field of a row was still open at the end of the line.
    UnclosedQuote,
    /// Arrays and objects were nested more deeply than the limit allows.
    TooDeeplyNested,
}

/// A [`ParseError`] as contracts speak of it.
pub ghost enum Failure {
    UnexpectedCharacter(char, int),
    UnexpectedEndOfInput,
    InvalidNumber(Seq<char>),
    InvalidEscape(char),
    UnclosedString,
    UnclosedQuote,
    TooDeeplyNested,
}

impl View for ParseError {
    type V = Failure;

    open spec fn view(&self) -> Failure {
        match self {
            ParseError::UnexpectedCharacter(c, position) => Failure::UnexpectedCharacter(
                *c,
                *position as int,
            ),
            ParseError::UnexpectedEndOfInput => Failure::UnexpectedEndOfInput,
            ParseError::InvalidNumber(text) => Failure::InvalidNumber(text@),
            ParseError::InvalidEscape(c) => Failure::InvalidEscape(*c),
            ParseError::UnclosedString => Failure::UnclosedString,
            ParseError::UnclosedQuote => Failure::UnclosedQuote,
            ParseError::TooDeeplyNested => Failure::TooDeeplyNested,
        }
    }
}

/// The sentence that reports `failure`.
pub open spec fn failure_message(failure: Failure) -> Seq<char> {
    match failure {
        Failure::UnexpectedCharacter(c, position) => "Unexpected character '"@.push(c)
            + "' at position "@ + decimal(position as nat),
        Failure::UnexpectedEndOfInput => "Unexpected end of input"@,
        Failure::InvalidNumber(text) => "Invalid number: "@ + text,
        Failure::InvalidEscape(c) => "Invalid escape sequence: \\"@.push(c),
        Failure::UnclosedString => "Unclosed string"@,
        Failure::UnclosedQuote => "Unclosed quote"@,
        Failure::TooDeeplyNested => "Too deeply nested"@,
    }
}

impl ParseError {
    /// The error as a sentence for a reader.
    pub fn message(&self) -> (text: String)
        ensures
            text@ == failure_message(self@),
    {
        match self {
            ParseError::UnexpectedCharacter(c, position) => {
                let mut text = String::from_str("Unexpected character '");
                text.push(*c);
                text.append("' at position ");
                push_decimal(&mut text, *position as u64);
                text
            },
            ParseError::UnexpectedEndOfInput => String::from_str("Unexpected end of input"),
            ParseError::InvalidNumber(number) => {
                let mut text = String::from_str("Invalid number: ");
                text.append(number.as_str());
                text
            },
            ParseError::InvalidEscape(c) => {
                let mut text = String::from_str("Invalid escape sequence: \\");
                text.push(*c);
                text
            },
            ParseError::UnclosedString => String::from_str("Unclosed string"),
            ParseError::UnclosedQuote => String::from_str("Unclosed quote"),
            ParseError::TooDeeplyNested => String::from_str("Too deeply nested"),
        }
    }
}

} // verus!
