//! The reading of a calculation: its three parts and its operator. The
//! arithmetic itself is done on floating-point numbers, by the caller.

use vstd::prelude::*;

use crate::text::{span_texts, string_of, to_chars, word_spans, words};

verus! {

/// Why a calculation failed.
#[derive(Debug, PartialEq)]
pub enum CalculatorError {
    DivisionByZero,
    Overflow,
    InvalidInput(String),
}

/// A [`CalculatorError`] as contracts speak of it.
pub ghost enum CalculatorFailure {
    DivisionByZero,
    Overflow,
    InvalidInput(Seq<char>),
}

impl View for CalculatorError {
    type V = CalculatorFailure;

    open spec fn view(&self) -> CalculatorFailure {
        match self {
            CalculatorError::DivisionByZero => CalculatorFailure::DivisionByZero,
            CalculatorError::Overflow => CalculatorFailure::Overflow,
            CalculatorError::InvalidInput(reason) => CalculatorFailure::InvalidInput(reason@),
        }
    }
}

/// The sentence that reports `failure`.
pub open spec fn calculator_message(failure: CalculatorFailure) -> Seq<char> {
    match failure {
        CalculatorFailure::DivisionByZero => "Division by zero"@,
        CalculatorFailure::Overflow => "Arithmetic overflow"@,
        CalculatorFailure::InvalidInput(reason) => "Invalid input: "@ + reason,
    }
}

impl CalculatorError {
    /// The error as a sentence for a reader.
    pub fn message(&self) -> (text: String)
        ensures
            text@ == calculator_message(self@),
    {
        match self {
            CalculatorError::DivisionByZero => String::from_str("Division by zero"),
            CalculatorError::Overflow => String::from_str("Arithmetic overflow"),
            CalculatorError::InvalidInput(reason) => {
                let mut text = String::from_str("Invalid input: ");
                text.append(reason.as_str());
                text
            },
        }
    }
}

/// One of the four operations.
#[derive(Debug, Clone, Copy, PartialEq, Eq, Structural)]
pub enum Operator {
    Add,
    Subtract,
    Multiply,
    Divide,
}

/// The reason given for a calculation that has not three parts.
pub open spec fn format_reason() -> Seq<char> {
    "Expected format: <number> <operator> <number>"@
}

/// The reason given for an operator that is none of the four.
pub open spec fn operator_reason(symbol: Seq<char>) -> Seq<char> {
    "Unknown operator: "@ + symbol
}

/// The three parts of a calculation: the words of `expression`, if there
/// are exactly three of them.
pub open spec fn parts_of(expression: Seq<char>) -> Result<
    (Seq<char>, Seq<char>, Seq<char>),
    CalculatorFailure,
> {
    let parts = words(expression);
    if parts.len() == 3 {
        Ok((parts[0], parts[1], parts[2]))
    } else {
        Err(CalculatorFailure::InvalidInput(format_reason()))
    }
}

/// The operator that `symbol` writes.
pub open spec fn operator_of(symbol: Seq<char>) -> Result<Operator, CalculatorFailure> {
    if symbol == seq!['+'] {
        Ok(Operator::Add)
    } else if symbol == seq!['-'] {
        Ok(Operator::Subtract)
    } else if symbol == seq!['*'] {
        Ok(Operator::Multiply)
    } else if symbol == seq!['/'] {
        Ok(Operator::Divide)
    } else {
        Err(CalculatorFailure::InvalidInput(operator_reason(symbol)))
    }
}

/// What a result of [`Calculator::parts`] says, over views.
pub open spec fn parts_outcome(result: Result<(String, String, String), CalculatorError>) -> Result<
    (Seq<char>, Seq<char>, Seq<char>),
    CalculatorFailure,
> {
    match result {
        Ok((left, operator, right)) => Ok((left@, operator@, right@)),
        Err(error) => Err(error@),
    }
}

/// What a result of [`Calculator::operator`] says, over views.
pub open spec fn operator_outcome(result: Result<Operator, CalculatorError>) -> Result<
    Operator,
    CalculatorFailure,
> {
    match result {
        Ok(operator) => Ok(operator),
        Err(error) => Err(error@),
    }
}

/// A calculator for expressions of two numbers and an operator.
pub struct Calculator;

impl Calculator {
    /// Splits `expression` at its white space into the first number, the
    /// operator and the second number.
    pub fn parts(expression: &str) -> (result: Result<(String, String, String), CalculatorError>)
        ensures
            parts_outcome(result) == parts_of(expression@),
    {
        let chars = to_chars(expression);
        let spans = word_spans(chars.as_slice());
        if spans.len() != 3 {
            return Err(
                CalculatorError::InvalidInput(
                    String::from_str("Expected format: <number> <operator> <number>"),
                ),
            );
        }
        proof {
            let parts = span_texts(chars@, spans@);
            assert(parts[0] == chars@.subrange(spans@[0].0 as int, spans@[0].1 as int));
            assert(parts[1] == chars@.subrange(spans@[1].0 as int, spans@[1].1 as int));
            assert(parts[2] == chars@.subrange(spans@[2].0 as int, spans@[2].1 as int));
        }
        let left = string_of(chars.as_slice(), spans[0].0, spans[0].1);
        let operator = string_of(chars.as_slice(), spans[1].0, spans[1].1);
        let right = string_of(chars.as_slice(), spans[2].0, spans[2].1);
        Ok((left, operator, right))
    }

    /// Reads an operator: one of `+`, `-`, `*` and `/`.
    pub fn operator(symbol: &str) -> (result: Result<Operator, CalculatorError>)
        ensures
            operator_outcome(result) == operator_of(symbol@),
    {
        let chars = to_chars(symbol);
        if chars.len() == 1 {
            let c = chars[0];
            proof {
                assert(chars@ == seq![c]);
                assert(seq!['+'][0] == '+' && seq!['-'][0] == '-' && seq!['*'][0] == '*' && seq![
                    '/',
                ][0] == '/');
            }
            if c == '+' {
                return Ok(Operator::Add);
            } else if c == '-' {
                return Ok(Operator::Subtract);
            } else if c == '*' {
                return Ok(Operator::Multiply);
            } else if c == '/' {
                return Ok(Operator::Divide);
            }
        } else {
            assert(chars@.len() != seq!['+'].len());
        }
        let mut reason = String::from_str("Unknown operator: ");
        reason.append(symbol);
        Err(CalculatorError::InvalidInput(reason))
    }
}

} // verus!
