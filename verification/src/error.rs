use vstd::prelude::*;

verus! {

/// The ways one line of input can fail.
///
/// A line is either rejected by the grammar, holds an integer literal outside
/// the 32-bit signed range, produces an arithmetic result outside that range,
/// or divides by zero. Every failure is local to its line: the caller reports
/// it and goes on with the next line.
#[derive(Clone, Copy, Debug, PartialEq, Eq, Structural)]
pub enum CalcError {
    /// The line does not match the grammar: an unexpected character, an
    /// incomplete expression, an unmatched parenthesis, or an empty line.
    SyntaxError,
    /// An integer literal's digit sequence exceeds the 32-bit signed range.
    LiteralOverflow,
    /// Negation, addition, subtraction, multiplication, or division produced
    /// a value outside the 32-bit signed range.
    ArithmeticOverflow,
    /// Division or modulo with a zero right-hand operand.
    DivisionByZero,
}

impl CalcError {
    /// What `message` returns for each kind of failure.
    pub open spec fn message_spec(self) -> Seq<char> {
        match self {
            CalcError::SyntaxError => "the line does not match the grammar"@,
            CalcError::LiteralOverflow => "integer literal out of range"@,
            CalcError::ArithmeticOverflow => "arithmetic overflow"@,
            CalcError::DivisionByZero => "division by zero"@,
        }
    }

    /// A short description of the failure, for the driver's diagnostics.
    pub fn message(&self) -> (m: &'static str)
        ensures
            m@ == self.message_spec(),
    {
        match self {
            CalcError::SyntaxError => "the line does not match the grammar",
            CalcError::LiteralOverflow => "integer literal out of range",
            CalcError::ArithmeticOverflow => "arithmetic overflow",
            CalcError::DivisionByZero => "division by zero",
        }
    }
}

} // verus!
