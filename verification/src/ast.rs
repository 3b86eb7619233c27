use vstd::prelude::*;

use vstd::arithmetic::div_mod::{
    lemma_div_of0, lemma_div_pos_is_pos, lemma_fundamental_div_mod,
    lemma_mod_division_less_than_divisor,
};

use crate::error::CalcError;

verus! {

/// The binary operators of the calculator.
#[derive(Clone, Copy, Debug, PartialEq, Eq, Structural)]
pub enum Op {
    Add,
    Subtract,
    Multiply,
    Divide,
    Modulo,
}

/// An arithmetic expression over 32-bit signed integers.
///
/// The tree is finite and strictly owned top-down: each node exclusively owns
/// its children, with no sharing and no back-references. A tree is built fresh
/// from one input line and discarded after evaluation.
#[derive(Debug, PartialEq, Eq)]
pub enum Expr {
    /// An integer literal.
    Integer(i32),
    /// Arithmetic negation of the operand.
    UnaryMinus(Box<Expr>),
    /// A binary operation on two subexpressions.
    BinOp { lhs: Box<Expr>, op: Op, rhs: Box<Expr> },
}

/// Whether a mathematical integer fits the 32-bit signed range.
pub open spec fn in_i32(v: int) -> bool {
    i32::MIN <= v <= i32::MAX
}

/// The value where it fits the 32-bit signed range, otherwise the overflow error.
pub open spec fn fit_i32(v: int) -> Result<int, CalcError> {
    if in_i32(v) {
        Ok(v)
    } else {
        Err(CalcError::ArithmeticOverflow)
    }
}

/// Integer division truncating toward zero: the quotient of the magnitudes,
/// negated when the operands' signs differ.
pub open spec fn div_trunc(a: int, b: int) -> int
    recommends
        b != 0,
{
    if a == 0 {
        0
    } else if a > 0 && b > 0 {
        a / b
    } else if a < 0 && b < 0 {
        (a * -1) / (b * -1)
    } else if a < 0 {
        ((a * -1) / b) * -1
    } else {
        (a / (b * -1)) * -1
    }
}

/// The remainder of truncating division: the remainder of the magnitudes,
/// carrying the dividend's sign.
pub open spec fn mod_trunc(a: int, b: int) -> int
    recommends
        b != 0,
{
    if a == 0 {
        0
    } else if a > 0 && b > 0 {
        a % b
    } else if a < 0 && b < 0 {
        ((a * -1) % (b * -1)) * -1
    } else if a < 0 {
        ((a * -1) % b) * -1
    } else {
        a % (b * -1)
    }
}

/// What one binary operator yields on two in-range operands: the exact result
/// where it fits the 32-bit signed range, `DivisionByZero` for a zero divisor,
/// and `ArithmeticOverflow` for a result outside the range. The one remainder
/// that the machine operation rejects, `i32::MIN % -1`, overflows as well,
/// matching the division it accompanies.
pub open spec fn apply_op_spec(op: Op, l: int, r: int) -> Result<int, CalcError> {
    match op {
        Op::Add => fit_i32(l + r),
        Op::Subtract => fit_i32(l - r),
        Op::Multiply => fit_i32(l * r),
        Op::Divide => if r == 0 {
            Err(CalcError::DivisionByZero)
        } else {
            fit_i32(div_trunc(l, r))
        },
        Op::Modulo => if r == 0 {
            Err(CalcError::DivisionByZero)
        } else if l == i32::MIN && r == -1 {
            Err(CalcError::ArithmeticOverflow)
        } else {
            fit_i32(mod_trunc(l, r))
        },
    }
}

/// The value of an expression tree: children first, left before right, each
/// operator applied by `apply_op_spec`, and the first error propagated.
pub open spec fn eval_spec(e: Expr) -> Result<int, CalcError>
    decreases e,
{
    match e {
        Expr::Integer(v) => Ok(v as int),
        Expr::UnaryMinus(inner) => match eval_spec(*inner) {
            Ok(v) => fit_i32(-v),
            Err(err) => Err(err),
        },
        Expr::BinOp { lhs, op, rhs } => match eval_spec(*lhs) {
            Ok(l) => match eval_spec(*rhs) {
                Ok(r) => apply_op_spec(op, l, r),
                Err(err) => Err(err),
            },
            Err(err) => Err(err),
        },
    }
}

/// Whether an executable result agrees with a mathematical one.
pub open spec fn eval_result_ok(r: Result<i32, CalcError>, m: Result<int, CalcError>) -> bool {
    match r {
        Ok(v) => m == Ok::<int, CalcError>(v as int),
        Err(err) => m == Err::<int, CalcError>(err),
    }
}

/// One binary operator on two machine integers, checked as `apply_op_spec` says.
fn apply_op(op: Op, l: i32, r: i32) -> (res: Result<i32, CalcError>)
    ensures
        eval_result_ok(res, apply_op_spec(op, l as int, r as int)),
{
    match op {
        Op::Add => match l.checked_add(r) {
            Some(v) => Ok(v),
            None => Err(CalcError::ArithmeticOverflow),
        },
        Op::Subtract => match l.checked_sub(r) {
            Some(v) => Ok(v),
            None => Err(CalcError::ArithmeticOverflow),
        },
        Op::Multiply => match l.checked_mul(r) {
            Some(v) => Ok(v),
            None => Err(CalcError::ArithmeticOverflow),
        },
        Op::Divide => if r == 0 {
            Err(CalcError::DivisionByZero)
        } else {
            match l.checked_div(r) {
                Some(v) => Ok(v),
                None => Err(CalcError::ArithmeticOverflow),
            }
        },
        Op::Modulo => if r == 0 {
            Err(CalcError::DivisionByZero)
        } else {
            match l.checked_rem(r) {
                Some(v) => Ok(v),
                None => Err(CalcError::ArithmeticOverflow),
            }
        },
    }
}

impl Expr {
    /// Reduces the tree to a single 32-bit signed integer by post-order
    /// recursion, exactly as `eval_spec` says: the result on success, and the
    /// first overflow or division by zero otherwise.
    pub fn evaluate(&self) -> (r: Result<i32, CalcError>)
        ensures
            eval_result_ok(r, eval_spec(*self)),
        decreases *self,
    {
        match self {
            Expr::Integer(v) => Ok(*v),
            Expr::UnaryMinus(inner) => match inner.evaluate() {
                Ok(v) => if v == i32::MIN {
                    Err(CalcError::ArithmeticOverflow)
                } else {
                    Ok(-v)
                },
                Err(err) => Err(err),
            },
            Expr::BinOp { lhs, op, rhs } => match lhs.evaluate() {
                Ok(l) => match rhs.evaluate() {
                    Ok(r) => apply_op(*op, l, r),
                    Err(err) => Err(err),
                },
                Err(err) => Err(err),
            },
        }
    }
}

/// The magnitude of a mathematical integer.
pub open spec fn abs_val(v: int) -> int {
    if v < 0 {
        -v
    } else {
        v
    }
}

/// Law: an integer leaf evaluates to exactly its own value, for every value
/// the 32-bit signed range holds.
pub proof fn lemma_eval_integer(n: i32)
    ensures
        eval_spec(Expr::Integer(n)) == Ok::<int, CalcError>(n as int),
{
}

/// Law: a successful evaluation always lands in the 32-bit signed range.
pub proof fn lemma_eval_in_range(e: Expr)
    ensures
        eval_spec(e) is Ok ==> in_i32(eval_spec(e)->Ok_0),
    decreases e,
{
    match e {
        Expr::Integer(_) => {},
        Expr::UnaryMinus(inner) => {
            lemma_eval_in_range(*inner);
        },
        Expr::BinOp { lhs, op: _, rhs } => {
            lemma_eval_in_range(*lhs);
            lemma_eval_in_range(*rhs);
        },
    }
}

/// Law: unary minus undoes itself. Negating a value twice gives the value
/// back, whenever the inner negation itself stays in range — only the
/// smallest representable value has no negation.
pub proof fn lemma_double_negation(e: Expr)
    requires
        eval_spec(e) is Ok,
        eval_spec(e)->Ok_0 != i32::MIN,
    ensures
        eval_spec((Expr::UnaryMinus(Box::new(Expr::UnaryMinus(Box::new(e)))))) == eval_spec(e),
{
    lemma_eval_in_range(e);
    reveal_with_fuel(eval_spec, 3);
}

/// Law: dividing or taking the remainder by zero always fails with
/// `DivisionByZero`, whatever expression stands on the left and whatever
/// value the right-hand side reached zero by.
pub proof fn lemma_division_by_zero(lhs: Expr, op: Op, rhs: Expr)
    requires
        op == Op::Divide || op == Op::Modulo,
        eval_spec(lhs) is Ok,
        eval_spec(rhs) == Ok::<int, CalcError>(0),
    ensures
        eval_spec((Expr::BinOp { lhs: Box::new(lhs), op: op, rhs: Box::new(rhs) })) == Err::<
            int,
            CalcError,
        >(CalcError::DivisionByZero),
{
}

/// Law: `div_trunc` and `mod_trunc` are the truncating division pair. They
/// reassemble the dividend exactly, the remainder is smaller in magnitude
/// than the divisor and carries the dividend's sign, and the quotient's
/// magnitude is the magnitude quotient — rounding toward zero, never toward
/// negative infinity.
pub proof fn lemma_div_mod_trunc(a: int, b: int)
    requires
        b != 0,
    ensures
        a == b * div_trunc(a, b) + mod_trunc(a, b),
        abs_val(mod_trunc(a, b)) < abs_val(b),
        a >= 0 ==> mod_trunc(a, b) >= 0,
        a <= 0 ==> mod_trunc(a, b) <= 0,
        abs_val(div_trunc(a, b)) == abs_val(a) / abs_val(b),
{
    if a == 0 {
        lemma_div_of0(abs_val(b));
        assert(b * div_trunc(a, b) + mod_trunc(a, b) == 0) by (nonlinear_arith)
            requires
                div_trunc(a, b) == 0,
                mod_trunc(a, b) == 0,
        ;
    } else if a > 0 && b > 0 {
        lemma_fundamental_div_mod(a, b);
        lemma_mod_division_less_than_divisor(a, b);
        lemma_div_pos_is_pos(a, b);
    } else if a < 0 && b < 0 {
        let na: int = a * -1;
        let nb: int = b * -1;
        lemma_fundamental_div_mod(na, nb);
        lemma_mod_division_less_than_divisor(na, nb);
        lemma_div_pos_is_pos(na, nb);
        let q: int = na / nb;
        let m: int = na % nb;
        assert(a == b * q + (m * -1)) by (nonlinear_arith)
            requires
                na == nb * q + m,
                na == a * -1,
                nb == b * -1,
        ;
    } else if a < 0 {
        let na: int = a * -1;
        lemma_fundamental_div_mod(na, b);
        lemma_mod_division_less_than_divisor(na, b);
        lemma_div_pos_is_pos(na, b);
        let q: int = na / b;
        let m: int = na % b;
        assert(a == b * (q * -1) + (m * -1)) by (nonlinear_arith)
            requires
                na == b * q + m,
                na == a * -1,
        ;
    } else {
        let nb: int = b * -1;
        lemma_fundamental_div_mod(a, nb);
        lemma_mod_division_less_than_divisor(a, nb);
        lemma_div_pos_is_pos(a, nb);
        let q: int = a / nb;
        let m: int = a % nb;
        assert(a == b * (q * -1) + m) by (nonlinear_arith)
            requires
                a == nb * q + m,
                nb == b * -1,
        ;
    }
    assert(a == b * div_trunc(a, b) + mod_trunc(a, b));
    assert(abs_val(mod_trunc(a, b)) < abs_val(b));
    assert(abs_val(div_trunc(a, b)) == abs_val(a) / abs_val(b));
}

} // verus!
