use sakiko::error::Error;

#[test]
fn every_error_has_its_message() {
    let s = |x: &str| x.to_string();
    assert_eq!(Error::VariableNotFound(s("x")).to_string(), "Variable x not found");
    assert_eq!(Error::VariableNotFound(s("")).to_string(), "Variable  not found");
    assert_eq!(Error::TypeMismatch.to_string(), "Type mismatch");
    assert_eq!(Error::IndexOutOfBounds.to_string(), "Index out of bounds");
    assert_eq!(Error::InvalidStep(s("x")).to_string(), "Invalid step");
    assert_eq!(Error::InvalidPattern.to_string(), "Invalid pattern");
    assert_eq!(
        Error::NoValidTransition.to_string(),
        "No valid transaction found for empty pattern"
    );
    assert_eq!(Error::InputParseFailure.to_string(), "Invalid input");
    assert_eq!(Error::InvalidInput.to_string(), "Invalid input");
    assert_eq!(Error::Overflow.to_string(), "Arithmetic overflow");
    assert_eq!(Error::DivisionByZero.to_string(), "Division by zero");
    assert_eq!(Error::StepLimit.to_string(), "Too many steps without output");
    assert_eq!(Error::Validation(s("one\ntwo")).to_string(), "one\ntwo");
}
