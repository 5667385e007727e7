//! Floating-point values as the engine holds them.
//!
//! The engine never computes with such a number. It holds each one by its
//! IEEE 754 binary64 encoding, by which two of them are ordered and by which
//! the host finds the number again, and by the text the host displays it
//! with. New numbers are made by the host, through a [`FloatUnit`].

use vstd::prelude::*;

verus! {

/// A binary64 number: its encoding and its display text.
#[derive(Debug, PartialEq)]
pub struct Float {
    /// The IEEE 754 binary64 encoding: sign, eleven exponent bits, fraction.
    pub bits: u64,
    /// The text that displays the number: the host writes it with three
    /// decimals.
    pub text: String,
}

/// What a [`Float`] is to the contracts.
pub struct FloatValue {
    pub bits: u64,
    pub text: Seq<char>,
}

impl DeepView for Float {
    type V = FloatValue;

    open spec fn deep_view(&self) -> FloatValue {
        FloatValue { bits: self.bits, text: self.text@ }
    }
}

impl View for Float {
    type V = FloatValue;

    open spec fn view(&self) -> FloatValue {
        self.deep_view()
    }
}

/// The encoding of the sign bit alone.
pub const SIGN_BIT: u64 = 0x8000_0000_0000_0000;

/// The encoding of positive infinity: every encoding of greater magnitude is
/// not a number.
pub const INFINITY_BITS: u64 = 0x7ff0_0000_0000_0000;

/// The encoding without its sign bit.
pub open spec fn magnitude(bits: u64) -> int {
    if bits >= SIGN_BIT {
        bits - SIGN_BIT
    } else {
        bits as int
    }
}

/// Whether the encoding is one of a NaN.
pub open spec fn is_nan(bits: u64) -> bool {
    magnitude(bits) > INFINITY_BITS
}

/// An integer that orders the numbers as their values do: the magnitude,
/// negated under a sign bit. Both zeros have rank 0.
pub open spec fn rank(bits: u64) -> int {
    if bits >= SIGN_BIT {
        -magnitude(bits)
    } else {
        magnitude(bits)
    }
}

/// Numeric equality: false when either side is a NaN, and true of the two zeros.
pub open spec fn float_eq(a: u64, b: u64) -> bool {
    !is_nan(a) && !is_nan(b) && rank(a) == rank(b)
}

/// Numeric less-than: false when either side is a NaN.
pub open spec fn float_lt(a: u64, b: u64) -> bool {
    !is_nan(a) && !is_nan(b) && rank(a) < rank(b)
}

/// Numeric less-or-equal: false when either side is a NaN.
pub open spec fn float_le(a: u64, b: u64) -> bool {
    !is_nan(a) && !is_nan(b) && rank(a) <= rank(b)
}

/// The display text of positive zero.
pub open spec fn zero_text() -> Seq<char> {
    seq!['0', '.', '0', '0', '0']
}

fn rank_of(bits: u64) -> (r: i128)
    ensures
        r == rank(bits),
{
    if bits >= SIGN_BIT {
        -((bits - SIGN_BIT) as i128)
    } else {
        bits as i128
    }
}

fn nan(bits: u64) -> (r: bool)
    ensures
        r == is_nan(bits),
{
    if bits >= SIGN_BIT {
        bits - SIGN_BIT > INFINITY_BITS
    } else {
        bits > INFINITY_BITS
    }
}

impl Float {
    /// The number with the given encoding and display text.
    pub fn new(bits: u64, text: String) -> (r: Float)
        ensures
            r@ == (FloatValue { bits, text: text@ }),
    {
        Float { bits, text }
    }

    /// Positive zero, displayed with three decimals.
    pub fn zero() -> (r: Float)
        ensures
            r@ == (FloatValue { bits: 0, text: zero_text() }),
    {
        proof {
            reveal_strlit("0.000");
        }
        let text = String::from_str("0.000");
        assert(text@ =~= zero_text());
        Float { bits: 0, text }
    }

    /// Whether the two numbers are equal in value.
    pub fn equals(&self, other: &Float) -> (r: bool)
        ensures
            r == float_eq(self.bits, other.bits),
    {
        !nan(self.bits) && !nan(other.bits) && rank_of(self.bits) == rank_of(other.bits)
    }

    /// Whether this number is less than `other` in value.
    pub fn less(&self, other: &Float) -> (r: bool)
        ensures
            r == float_lt(self.bits, other.bits),
    {
        !nan(self.bits) && !nan(other.bits) && rank_of(self.bits) < rank_of(other.bits)
    }

    /// Whether this number is less than or equal to `other` in value.
    pub fn less_or_equal(&self, other: &Float) -> (r: bool)
        ensures
            r == float_le(self.bits, other.bits),
    {
        !nan(self.bits) && !nan(other.bits) && rank_of(self.bits) <= rank_of(other.bits)
    }
}

impl Clone for Float {
    fn clone(&self) -> (r: Float)
        ensures
            r@ == self@,
    {
        Float { bits: self.bits, text: self.text.clone() }
    }
}

/// A computation on floating-point numbers that the engine asks of its host.
#[derive(Debug, PartialEq)]
pub enum FloatTask {
    /// The sum of the two numbers.
    Add(Float, Float),
    /// The first number less the second.
    Subtract(Float, Float),
    /// The product of the two numbers.
    Multiply(Float, Float),
    /// The first number divided by the second.
    Divide(Float, Float),
    /// A number drawn at random from the first up to, but not including, the second.
    Between(Float, Float),
    /// The number that the text denotes.
    Parse(String),
}

/// What a [`FloatTask`] is to the contracts.
pub enum Task {
    Add(FloatValue, FloatValue),
    Subtract(FloatValue, FloatValue),
    Multiply(FloatValue, FloatValue),
    Divide(FloatValue, FloatValue),
    Between(FloatValue, FloatValue),
    Parse(Seq<char>),
}

impl View for FloatTask {
    type V = Task;

    open spec fn view(&self) -> Task {
        match self {
            FloatTask::Add(a, b) => Task::Add(a@, b@),
            FloatTask::Subtract(a, b) => Task::Subtract(a@, b@),
            FloatTask::Multiply(a, b) => Task::Multiply(a@, b@),
            FloatTask::Divide(a, b) => Task::Divide(a@, b@),
            FloatTask::Between(a, b) => Task::Between(a@, b@),
            FloatTask::Parse(text) => Task::Parse(text@),
        }
    }
}

impl FloatTask {
    /// Has `unit` do the computation, and returns what `unit` answers.
    pub fn perform<U: FloatUnit>(&self, unit: &U) -> (r: Option<Float>)
        ensures
            r is None ==> self@ is Parse,
            answered(*self, unit, r),
    {
        match self {
            FloatTask::Add(a, b) => Some(unit.add(a, b)),
            FloatTask::Subtract(a, b) => Some(unit.subtract(a, b)),
            FloatTask::Multiply(a, b) => Some(unit.multiply(a, b)),
            FloatTask::Divide(a, b) => Some(unit.divide(a, b)),
            FloatTask::Between(a, b) => Some(unit.between(a, b)),
            FloatTask::Parse(text) => {
                let given = text.as_str();
                let r = unit.parse(given);
                assert(given@ == text@ && call_ensures(U::parse, (unit, given), r));
                r
            },
        }
    }
}

/// Whether `r` is an answer of `unit` to `task`: what the method of `unit`
/// that the task names can return for the operands the task holds, in their
/// order. An arithmetic task and a draw always have an answer. For parsing,
/// `r` is what `parse` can return for a string of the characters of the text.
pub open spec fn answered<U: FloatUnit>(task: FloatTask, unit: &U, r: Option<Float>) -> bool {
    match task {
        FloatTask::Add(a, b) => r matches Some(x) && call_ensures(U::add, (unit, &a, &b), x),
        FloatTask::Subtract(a, b) => r matches Some(x) && call_ensures(
            U::subtract,
            (unit, &a, &b),
            x,
        ),
        FloatTask::Multiply(a, b) => r matches Some(x) && call_ensures(
            U::multiply,
            (unit, &a, &b),
            x,
        ),
        FloatTask::Divide(a, b) => r matches Some(x) && call_ensures(U::divide, (unit, &a, &b), x),
        FloatTask::Between(a, b) => r matches Some(x) && call_ensures(
            U::between,
            (unit, &a, &b),
            x,
        ),
        FloatTask::Parse(text) => exists|given: &str|
            given@ == text@ && #[trigger] call_ensures(U::parse, (unit, given), r),
    }
}

/// The arithmetic that the engine asks of its host. Nothing is assumed of what
/// an implementation returns: the engine stores the answer as it comes.
pub trait FloatUnit {
    /// The sum `a + b`.
    fn add(&self, a: &Float, b: &Float) -> Float;

    /// The difference `a - b`.
    fn subtract(&self, a: &Float, b: &Float) -> Float;

    /// The product `a * b`.
    fn multiply(&self, a: &Float, b: &Float) -> Float;

    /// The quotient `a / b`.
    fn divide(&self, a: &Float, b: &Float) -> Float;

    /// A number drawn at random from `low` up to, but not including, `high`.
    fn between(&self, low: &Float, high: &Float) -> Float;

    /// The number that `text` denotes, if it denotes one.
    fn parse(&self, text: &str) -> Option<Float>;
}

} // verus!
