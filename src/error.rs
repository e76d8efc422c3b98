use vstd::prelude::*;

verus! {

/// What can go wrong while a challenge is generated or laid out.
#[derive(Debug, Clone, Copy, PartialEq, Eq, Structural)]
pub enum CaptchaError {
    /// A random range was empty or inverted (`low > high`, or a count of zero).
    InvalidRange,
    /// An arithmetic challenge asked for more operands than the evaluator
    /// takes in one expression.
    TooManyOperands,
    /// The evaluator could not produce an integer for the expression
    /// (an intermediate value left the `i64` range).
    Evaluation,
}

} // verus!
