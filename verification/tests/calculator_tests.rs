use katas::calculator::{Calculator, CalculatorError, Operator};

fn parts(expression: &str) -> Result<(String, String, String), CalculatorError> {
    Calculator::parts(expression)
}

fn invalid(reason: &str) -> CalculatorError {
    CalculatorError::InvalidInput(reason.to_string())
}

#[test]
fn three_parts_are_split_at_white_space() {
    assert_eq!(parts("10 + 5"), Ok(("10".to_string(), "+".to_string(), "5".to_string())));
    assert_eq!(
        parts("  -1.5\t/\n 0  "),
        Ok(("-1.5".to_string(), "/".to_string(), "0".to_string()))
    );
    assert_eq!(parts("a b c"), Ok(("a".to_string(), "b".to_string(), "c".to_string())));
}

#[test]
fn other_numbers_of_parts_are_refused() {
    let reason = "Expected format: <number> <operator> <number>";
    for expression in ["", "   ", "1", "1 +", "1 + 2 3", "1+2"] {
        assert_eq!(parts(expression), Err(invalid(reason)));
    }
}

#[test]
fn the_four_operators() {
    assert_eq!(Calculator::operator("+"), Ok(Operator::Add));
    assert_eq!(Calculator::operator("-"), Ok(Operator::Subtract));
    assert_eq!(Calculator::operator("*"), Ok(Operator::Multiply));
    assert_eq!(Calculator::operator("/"), Ok(Operator::Divide));
}

#[test]
fn unknown_operators() {
    assert_eq!(Calculator::operator("%"), Err(invalid("Unknown operator: %")));
    assert_eq!(Calculator::operator("++"), Err(invalid("Unknown operator: ++")));
    assert_eq!(Calculator::operator(""), Err(invalid("Unknown operator: ")));
}

#[test]
fn calculator_messages() {
    assert_eq!(CalculatorError::DivisionByZero.message(), "Division by zero");
    assert_eq!(CalculatorError::Overflow.message(), "Arithmetic overflow");
    assert_eq!(invalid("Invalid first number").message(), "Invalid input: Invalid first number");
}
