//! The failures the engine reports.

use vstd::prelude::*;

verus! {

/// Why a check or a step of a session failed.
#[derive(Debug, PartialEq)]
pub enum Error {
    /// No variable has this name.
    VariableNotFound(String),
    /// The variables named do not have the types the instruction asks for.
    TypeMismatch,
    /// An index is negative or not below the length of its list.
    IndexOutOfBounds,
    /// The script has no step of this name.
    InvalidStep(String),
    /// A pattern cannot be matched against.
    InvalidPattern,
    /// A step without output has no transition that can be taken without input.
    NoValidTransition,
    /// The input does not denote a number of the type asked for.
    InputParseFailure,
    /// No transition of the step accepts the input.
    InvalidInput,
    /// The result of an integer operation does not fit in 32 bits.
    Overflow,
    /// An integer was divided by zero.
    DivisionByZero,
    /// A session went through as many steps without output as it may.
    StepLimit,
    /// A check found faults; the text lists them.
    Validation(String),
}

/// What an [`Error`] is to the contracts.
pub enum Failure {
    VariableNotFound(Seq<char>),
    TypeMismatch,
    IndexOutOfBounds,
    InvalidStep(Seq<char>),
    InvalidPattern,
    NoValidTransition,
    InputParseFailure,
    InvalidInput,
    Overflow,
    DivisionByZero,
    StepLimit,
    Validation(Seq<char>),
}

impl Failure {
    /// The text that reports the failure.
    pub open spec fn message(self) -> Seq<char> {
        match self {
            Failure::VariableNotFound(name) => "Variable "@ + name + " not found"@,
            Failure::TypeMismatch => "Type mismatch"@,
            Failure::IndexOutOfBounds => "Index out of bounds"@,
            Failure::InvalidStep(_) => "Invalid step"@,
            Failure::InvalidPattern => "Invalid pattern"@,
            Failure::NoValidTransition => "No valid transaction found for empty pattern"@,
            Failure::InputParseFailure => "Invalid input"@,
            Failure::InvalidInput => "Invalid input"@,
            Failure::Overflow => "Arithmetic overflow"@,
            Failure::DivisionByZero => "Division by zero"@,
            Failure::StepLimit => "Too many steps without output"@,
            Failure::Validation(report) => report,
        }
    }
}

/// Whether the failure is one that a check of the script rules out: a
/// variable that does not exist, variables of the wrong types, a step that
/// does not exist.
pub open spec fn ruled_out(f: Failure) -> bool {
    f is VariableNotFound || f is TypeMismatch || f is InvalidStep
}

impl View for Error {
    type V = Failure;

    open spec fn view(&self) -> Failure {
        match self {
            Error::VariableNotFound(name) => Failure::VariableNotFound(name@),
            Error::TypeMismatch => Failure::TypeMismatch,
            Error::IndexOutOfBounds => Failure::IndexOutOfBounds,
            Error::InvalidStep(name) => Failure::InvalidStep(name@),
            Error::InvalidPattern => Failure::InvalidPattern,
            Error::NoValidTransition => Failure::NoValidTransition,
            Error::InputParseFailure => Failure::InputParseFailure,
            Error::InvalidInput => Failure::InvalidInput,
            Error::Overflow => Failure::Overflow,
            Error::DivisionByZero => Failure::DivisionByZero,
            Error::StepLimit => Failure::StepLimit,
            Error::Validation(report) => Failure::Validation(report@),
        }
    }
}

/// A result with its error replaced by the error's model.
pub open spec fn outcome<T>(r: Result<T, Error>) -> Result<T, Failure> {
    match r {
        Ok(t) => Ok(t),
        Err(e) => Err(e@),
    }
}

impl Error {
    /// The text that reports the error.
    pub fn to_string(&self) -> (r: String)
        ensures
            r@ == self@.message(),
    {
        match self {
            Error::VariableNotFound(name) => {
                let mut text = String::from_str("Variable ");
                text.append(name.as_str());
                text.append(" not found");
                text
            },
            Error::TypeMismatch => String::from_str("Type mismatch"),
            Error::IndexOutOfBounds => String::from_str("Index out of bounds"),
            Error::InvalidStep(_) => String::from_str("Invalid step"),
            Error::InvalidPattern => String::from_str("Invalid pattern"),
            Error::NoValidTransition => String::from_str(
                "No valid transaction found for empty pattern",
            ),
            Error::InputParseFailure => String::from_str("Invalid input"),
            Error::InvalidInput => String::from_str("Invalid input"),
            Error::Overflow => String::from_str("Arithmetic overflow"),
            Error::DivisionByZero => String::from_str("Division by zero"),
            Error::StepLimit => String::from_str("Too many steps without output"),
            Error::Validation(report) => report.clone(),
        }
    }
}

} // verus!
