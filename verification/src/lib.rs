use vstd::prelude::*;

pub mod ast;
pub mod error;
pub mod parser;
pub mod token;

pub use crate::ast::{Expr, Op};
pub use crate::error::CalcError;
pub use crate::parser::{parse_expr, CalculatorParser};
pub use crate::token::{tokenize, Token};

use crate::ast::{eval_result_ok, eval_spec};
use crate::parser::parse_line_spec;

verus! {

/// What one whole line yields: the value of the expression it spells, or the
/// first error on the way there — a syntax error or literal out of range from
/// the parse, an overflow or division by zero from the evaluation.
pub open spec fn eval_line_spec(s: Seq<u8>) -> Result<int, CalcError> {
    match parse_line_spec(s) {
        Ok(e) => eval_spec(e),
        Err(err) => Err(err),
    }
}

/// Parses and evaluates one line of input, exactly as `eval_line_spec` says.
///
/// The result is a function of the bytes alone: no state survives a call, so
/// evaluating the same line again yields the same answer, and a failed line
/// leaves nothing behind that could disturb the next one.
pub fn evaluate_line(line: &[u8]) -> (r: Result<i32, CalcError>)
    ensures
        eval_result_ok(r, eval_line_spec(line@)),
{
    match CalculatorParser::parse(line) {
        Ok(e) => e.evaluate(),
        Err(err) => Err(err),
    }
}

} // verus!
