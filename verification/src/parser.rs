use vstd::prelude::*;

use crate::ast::{Expr, Op};
use crate::error::CalcError;
use crate::token::{tok_spec, tokenize, Token};

verus! {

/// The operator of a token at the multiplicative tier, if it has one.
pub open spec fn term_op(t: Token) -> Option<Op> {
    match t {
        Token::Star => Some(Op::Multiply),
        Token::Slash => Some(Op::Divide),
        Token::Percent => Some(Op::Modulo),
        _ => None,
    }
}

/// The operator of a token at the additive tier, if it has one.
pub open spec fn expr_op(t: Token) -> Option<Op> {
    match t {
        Token::Plus => Some(Op::Add),
        Token::Minus => Some(Op::Subtract),
        _ => None,
    }
}

/// The `factor` production: a unary minus applied to the factor after it, an
/// integer literal, or a parenthesized expression. On success, the tree and
/// the position after it; `None` where no factor starts at `i`.
///
/// The position guards in this tier and the two above it only protect the
/// recursion: a successful step always moves forward (as the parsing
/// functions' contracts prove), so they never reject anything.
pub open spec fn spec_factor(ts: Seq<Token>, i: nat) -> Option<(Expr, nat)>
    recommends
        i <= ts.len(),
    decreases ts.len() - i, 0nat,
{
    if i < ts.len() {
        match ts[i as int] {
            Token::Minus => match spec_factor(ts, i + 1) {
                Some((e, j)) => Some((Expr::UnaryMinus(Box::new(e)), j)),
                None => None,
            },
            Token::Int(v) => Some((Expr::Integer(v), i + 1)),
            Token::LParen => match spec_expr(ts, i + 1) {
                Some((e, j)) => if j < ts.len() && ts[j as int] == Token::RParen {
                    Some((e, j + 1))
                } else {
                    None
                },
                None => None,
            },
            _ => None,
        }
    } else {
        None
    }
}

/// The `term` production: a factor followed by any run of multiplicative
/// operators, folded to the left.
pub open spec fn spec_term(ts: Seq<Token>, i: nat) -> Option<(Expr, nat)>
    recommends
        i <= ts.len(),
    decreases ts.len() - i, 1nat,
{
    match spec_factor(ts, i) {
        Some((e, j)) => if i < j <= ts.len() {
            spec_term_rest(ts, j, e)
        } else {
            None
        },
        None => None,
    }
}

/// The multiplicative operators after a first factor, each combined with the
/// tree built so far: equal precedence associates to the left.
pub open spec fn spec_term_rest(ts: Seq<Token>, i: nat, lhs: Expr) -> Option<(Expr, nat)>
    recommends
        i <= ts.len(),
    decreases ts.len() - i, 3nat,
{
    if i < ts.len() {
        match term_op(ts[i as int]) {
            Some(op) => match spec_factor(ts, i + 1) {
                Some((rhs, k)) => if i < k <= ts.len() {
                    spec_term_rest(ts, k, Expr::BinOp { lhs: Box::new(lhs), op: op, rhs: Box::new(rhs) })
                } else {
                    None
                },
                None => None,
            },
            None => Some((lhs, i)),
        }
    } else {
        Some((lhs, i))
    }
}

/// The `expr` production: a term followed by any run of additive operators,
/// folded to the left. Additive operators bind weaker than multiplicative
/// ones because each operand here is a whole term.
pub open spec fn spec_expr(ts: Seq<Token>, i: nat) -> Option<(Expr, nat)>
    recommends
        i <= ts.len(),
    decreases ts.len() - i, 2nat,
{
    match spec_term(ts, i) {
        Some((e, j)) => if i < j <= ts.len() {
            spec_expr_rest(ts, j, e)
        } else {
            None
        },
        None => None,
    }
}

/// The additive operators after a first term, folded to the left.
pub open spec fn spec_expr_rest(ts: Seq<Token>, i: nat, lhs: Expr) -> Option<(Expr, nat)>
    recommends
        i <= ts.len(),
    decreases ts.len() - i, 4nat,
{
    if i < ts.len() {
        match expr_op(ts[i as int]) {
            Some(op) => match spec_term(ts, i + 1) {
                Some((rhs, k)) => if i < k <= ts.len() {
                    spec_expr_rest(ts, k, Expr::BinOp { lhs: Box::new(lhs), op: op, rhs: Box::new(rhs) })
                } else {
                    None
                },
                None => None,
            },
            None => Some((lhs, i)),
        }
    } else {
        Some((lhs, i))
    }
}

/// The `equation` production over a whole token sequence: one `expr` and
/// nothing after it. Anything else is a syntax error.
pub open spec fn parse_tokens_spec(ts: Seq<Token>) -> Result<Expr, CalcError> {
    match spec_expr(ts, 0) {
        Some((e, j)) => if j == ts.len() {
            Ok(e)
        } else {
            Err(CalcError::SyntaxError)
        },
        None => Err(CalcError::SyntaxError),
    }
}

/// What parsing one line of bytes yields: its tokens parsed as an equation,
/// or the tokenizer's own error.
pub open spec fn parse_line_spec(s: Seq<u8>) -> Result<Expr, CalcError> {
    match tok_spec(s, 0) {
        Ok(ts) => parse_tokens_spec(ts),
        Err(e) => Err(e),
    }
}

fn parse_factor(ts: &Vec<Token>, i: usize) -> (r: Result<(Expr, usize), CalcError>)
    requires
        i <= ts@.len(),
    ensures
        r matches Ok(p) ==> spec_factor(ts@, i as nat) == Some((p.0, p.1 as nat)) && i < p.1
            <= ts@.len(),
        r matches Err(e) ==> spec_factor(ts@, i as nat) is None && e == CalcError::SyntaxError,
    decreases ts@.len() - i, 0nat,
{
    if i >= ts.len() {
        return Err(CalcError::SyntaxError);
    }
    match ts[i] {
        Token::Minus => match parse_factor(ts, i + 1) {
            Ok((e, j)) => Ok((Expr::UnaryMinus(Box::new(e)), j)),
            Err(e) => Err(e),
        },
        Token::Int(v) => Ok((Expr::Integer(v), i + 1)),
        Token::LParen => match parse_expr_at(ts, i + 1) {
            Ok((e, j)) => {
                if j < ts.len() {
                    match ts[j] {
                        Token::RParen => Ok((e, j + 1)),
                        _ => Err(CalcError::SyntaxError),
                    }
                } else {
                    Err(CalcError::SyntaxError)
                }
            },
            Err(e) => Err(e),
        },
        _ => Err(CalcError::SyntaxError),
    }
}

fn parse_term_rest(ts: &Vec<Token>, i: usize, lhs: Expr) -> (r: Result<(Expr, usize), CalcError>)
    requires
        i <= ts@.len(),
    ensures
        r matches Ok(p) ==> spec_term_rest(ts@, i as nat, lhs) == Some((p.0, p.1 as nat)) && i
            <= p.1 <= ts@.len(),
        r matches Err(e) ==> spec_term_rest(ts@, i as nat, lhs) is None && e
            == CalcError::SyntaxError,
    decreases ts@.len() - i, 3nat,
{
    if i >= ts.len() {
        return Ok((lhs, i));
    }
    let found: Option<Op> = match ts[i] {
        Token::Star => Some(Op::Multiply),
        Token::Slash => Some(Op::Divide),
        Token::Percent => Some(Op::Modulo),
        _ => None,
    };
    match found {
        Some(op) => match parse_factor(ts, i + 1) {
            Ok((rhs, k)) => parse_term_rest(
                ts,
                k,
                Expr::BinOp { lhs: Box::new(lhs), op, rhs: Box::new(rhs) },
            ),
            Err(e) => Err(e),
        },
        None => Ok((lhs, i)),
    }
}

fn parse_term(ts: &Vec<Token>, i: usize) -> (r: Result<(Expr, usize), CalcError>)
    requires
        i <= ts@.len(),
    ensures
        r matches Ok(p) ==> spec_term(ts@, i as nat) == Some((p.0, p.1 as nat)) && i < p.1
            <= ts@.len(),
        r matches Err(e) ==> spec_term(ts@, i as nat) is None && e == CalcError::SyntaxError,
    decreases ts@.len() - i, 1nat,
{
    match parse_factor(ts, i) {
        Ok((e, j)) => parse_term_rest(ts, j, e),
        Err(e) => Err(e),
    }
}

fn parse_expr_rest(ts: &Vec<Token>, i: usize, lhs: Expr) -> (r: Result<(Expr, usize), CalcError>)
    requires
        i <= ts@.len(),
    ensures
        r matches Ok(p) ==> spec_expr_rest(ts@, i as nat, lhs) == Some((p.0, p.1 as nat)) && i
            <= p.1 <= ts@.len(),
        r matches Err(e) ==> spec_expr_rest(ts@, i as nat, lhs) is None && e
            == CalcError::SyntaxError,
    decreases ts@.len() - i, 4nat,
{
    if i >= ts.len() {
        return Ok((lhs, i));
    }
    let found: Option<Op> = match ts[i] {
        Token::Plus => Some(Op::Add),
        Token::Minus => Some(Op::Subtract),
        _ => None,
    };
    match found {
        Some(op) => match parse_term(ts, i + 1) {
            Ok((rhs, k)) => parse_expr_rest(
                ts,
                k,
                Expr::BinOp { lhs: Box::new(lhs), op, rhs: Box::new(rhs) },
            ),
            Err(e) => Err(e),
        },
        None => Ok((lhs, i)),
    }
}

fn parse_expr_at(ts: &Vec<Token>, i: usize) -> (r: Result<(Expr, usize), CalcError>)
    requires
        i <= ts@.len(),
    ensures
        r matches Ok(p) ==> spec_expr(ts@, i as nat) == Some((p.0, p.1 as nat)) && i < p.1
            <= ts@.len(),
        r matches Err(e) ==> spec_expr(ts@, i as nat) is None && e == CalcError::SyntaxError,
    decreases ts@.len() - i, 2nat,
{
    match parse_term(ts, i) {
        Ok((e, j)) => parse_expr_rest(ts, j, e),
        Err(e) => Err(e),
    }
}

/// Builds the AST for a whole token sequence: the one expression the tokens
/// spell, exactly as `parse_tokens_spec` says, or a syntax error where they
/// spell none or leave tokens over.
pub fn parse_expr(ts: &Vec<Token>) -> (r: Result<Expr, CalcError>)
    ensures
        r == parse_tokens_spec(ts@),
{
    match parse_expr_at(ts, 0) {
        Ok((e, j)) => if j == ts.len() {
            Ok(e)
        } else {
            Err(CalcError::SyntaxError)
        },
        Err(e) => Err(e),
    }
}

/// Law: equal precedence associates to the left. Three integers joined by
/// two subtractions parse as the left pair first — `a - b - c` is
/// `(a - b) - c`, never `a - (b - c)` — whatever the three values are.
pub proof fn lemma_left_associativity(a: i32, b: i32, c: i32)
    ensures
        parse_tokens_spec(
            seq![Token::Int(a), Token::Minus, Token::Int(b), Token::Minus, Token::Int(c)],
        ) == Ok::<Expr, CalcError>(
            (Expr::BinOp {
                lhs: Box::new(
                    (Expr::BinOp {
                        lhs: Box::new(Expr::Integer(a)),
                        op: Op::Subtract,
                        rhs: Box::new(Expr::Integer(b)),
                    }),
                ),
                op: Op::Subtract,
                rhs: Box::new(Expr::Integer(c)),
            }),
        ),
{
    let ts: Seq<Token> = seq![
        Token::Int(a),
        Token::Minus,
        Token::Int(b),
        Token::Minus,
        Token::Int(c),
    ];
    let ea = Expr::Integer(a);
    let eb = Expr::Integer(b);
    let ec = Expr::Integer(c);
    let ab = Expr::BinOp { lhs: Box::new(ea), op: Op::Subtract, rhs: Box::new(eb) };
    let abc = Expr::BinOp { lhs: Box::new(ab), op: Op::Subtract, rhs: Box::new(ec) };
    assert(spec_factor(ts, 0) == Some((ea, 1nat)));
    assert(spec_term_rest(ts, 1, ea) == Some((ea, 1nat)));
    assert(spec_term(ts, 0) == Some((ea, 1nat)));
    assert(spec_factor(ts, 2) == Some((eb, 3nat)));
    assert(spec_term_rest(ts, 3, eb) == Some((eb, 3nat)));
    assert(spec_term(ts, 2) == Some((eb, 3nat)));
    assert(spec_factor(ts, 4) == Some((ec, 5nat)));
    assert(spec_term_rest(ts, 5, ec) == Some((ec, 5nat)));
    assert(spec_term(ts, 4) == Some((ec, 5nat)));
    assert(spec_expr_rest(ts, 5, abc) == Some((abc, 5nat)));
    assert(spec_expr_rest(ts, 3, ab) == Some((abc, 5nat)));
    assert(spec_expr_rest(ts, 1, ea) == Some((abc, 5nat)));
    assert(spec_expr(ts, 0) == Some((abc, 5nat)));
}

/// Law: multiplication binds tighter than addition. In `a + b * c` the
/// product forms the right operand of the sum, whatever the three values are.
pub proof fn lemma_precedence(a: i32, b: i32, c: i32)
    ensures
        parse_tokens_spec(
            seq![Token::Int(a), Token::Plus, Token::Int(b), Token::Star, Token::Int(c)],
        ) == Ok::<Expr, CalcError>(
            (Expr::BinOp {
                lhs: Box::new(Expr::Integer(a)),
                op: Op::Add,
                rhs: Box::new(
                    (Expr::BinOp {
                        lhs: Box::new(Expr::Integer(b)),
                        op: Op::Multiply,
                        rhs: Box::new(Expr::Integer(c)),
                    }),
                ),
            }),
        ),
{
    let ts: Seq<Token> = seq![
        Token::Int(a),
        Token::Plus,
        Token::Int(b),
        Token::Star,
        Token::Int(c),
    ];
    let ea = Expr::Integer(a);
    let eb = Expr::Integer(b);
    let ec = Expr::Integer(c);
    let bc = Expr::BinOp { lhs: Box::new(eb), op: Op::Multiply, rhs: Box::new(ec) };
    let abc = Expr::BinOp { lhs: Box::new(ea), op: Op::Add, rhs: Box::new(bc) };
    assert(spec_factor(ts, 0) == Some((ea, 1nat)));
    assert(spec_term_rest(ts, 1, ea) == Some((ea, 1nat)));
    assert(spec_term(ts, 0) == Some((ea, 1nat)));
    assert(spec_factor(ts, 2) == Some((eb, 3nat)));
    assert(spec_factor(ts, 4) == Some((ec, 5nat)));
    assert(spec_term_rest(ts, 5, bc) == Some((bc, 5nat)));
    assert(spec_term_rest(ts, 3, eb) == Some((bc, 5nat)));
    assert(spec_term(ts, 2) == Some((bc, 5nat)));
    assert(spec_expr_rest(ts, 5, abc) == Some((abc, 5nat)));
    assert(spec_expr_rest(ts, 1, ea) == Some((abc, 5nat)));
    assert(spec_expr(ts, 0) == Some((abc, 5nat)));
}

/// Law: parentheses overrule precedence. In `(a + b) * c` the sum forms the
/// left operand of the product, whatever the three values are.
pub proof fn lemma_parentheses_group(a: i32, b: i32, c: i32)
    ensures
        parse_tokens_spec(
            seq![
                Token::LParen,
                Token::Int(a),
                Token::Plus,
                Token::Int(b),
                Token::RParen,
                Token::Star,
                Token::Int(c),
            ],
        ) == Ok::<Expr, CalcError>(
            (Expr::BinOp {
                lhs: Box::new(
                    (Expr::BinOp {
                        lhs: Box::new(Expr::Integer(a)),
                        op: Op::Add,
                        rhs: Box::new(Expr::Integer(b)),
                    }),
                ),
                op: Op::Multiply,
                rhs: Box::new(Expr::Integer(c)),
            }),
        ),
{
    let ts: Seq<Token> = seq![
        Token::LParen,
        Token::Int(a),
        Token::Plus,
        Token::Int(b),
        Token::RParen,
        Token::Star,
        Token::Int(c),
    ];
    let ea = Expr::Integer(a);
    let eb = Expr::Integer(b);
    let ec = Expr::Integer(c);
    let ab = Expr::BinOp { lhs: Box::new(ea), op: Op::Add, rhs: Box::new(eb) };
    let abc = Expr::BinOp { lhs: Box::new(ab), op: Op::Multiply, rhs: Box::new(ec) };
    assert(spec_factor(ts, 1) == Some((ea, 2nat)));
    assert(spec_term_rest(ts, 2, ea) == Some((ea, 2nat)));
    assert(spec_term(ts, 1) == Some((ea, 2nat)));
    assert(spec_factor(ts, 3) == Some((eb, 4nat)));
    assert(spec_term_rest(ts, 4, eb) == Some((eb, 4nat)));
    assert(spec_term(ts, 3) == Some((eb, 4nat)));
    assert(spec_expr_rest(ts, 4, ab) == Some((ab, 4nat)));
    assert(spec_expr_rest(ts, 2, ea) == Some((ab, 4nat)));
    assert(spec_expr(ts, 1) == Some((ab, 4nat)));
    assert(spec_factor(ts, 0) == Some((ab, 5nat)));
    assert(spec_factor(ts, 6) == Some((ec, 7nat)));
    assert(spec_term_rest(ts, 7, abc) == Some((abc, 7nat)));
    assert(spec_term_rest(ts, 5, ab) == Some((abc, 7nat)));
    assert(spec_term(ts, 0) == Some((abc, 7nat)));
    assert(spec_expr_rest(ts, 7, abc) == Some((abc, 7nat)));
    assert(spec_expr(ts, 0) == Some((abc, 7nat)));
}

/// Law: unary minus binds tighter than any binary operator. In `-a * b` the
/// minus takes only the factor `a`, not the whole product, whatever the two
/// values are.
pub proof fn lemma_unary_minus_binds_tighter(a: i32, b: i32)
    ensures
        parse_tokens_spec(seq![Token::Minus, Token::Int(a), Token::Star, Token::Int(b)])
            == Ok::<Expr, CalcError>(
            (Expr::BinOp {
                lhs: Box::new(Expr::UnaryMinus(Box::new(Expr::Integer(a)))),
                op: Op::Multiply,
                rhs: Box::new(Expr::Integer(b)),
            }),
        ),
{
    let ts: Seq<Token> = seq![Token::Minus, Token::Int(a), Token::Star, Token::Int(b)];
    let ea = Expr::Integer(a);
    let eb = Expr::Integer(b);
    let na = Expr::UnaryMinus(Box::new(ea));
    let nab = Expr::BinOp { lhs: Box::new(na), op: Op::Multiply, rhs: Box::new(eb) };
    assert(spec_factor(ts, 1) == Some((ea, 2nat)));
    assert(spec_factor(ts, 0) == Some((na, 2nat)));
    assert(spec_factor(ts, 3) == Some((eb, 4nat)));
    assert(spec_term_rest(ts, 4, nab) == Some((nab, 4nat)));
    assert(spec_term_rest(ts, 2, na) == Some((nab, 4nat)));
    assert(spec_term(ts, 0) == Some((nab, 4nat)));
    assert(spec_expr_rest(ts, 4, nab) == Some((nab, 4nat)));
    assert(spec_expr(ts, 0) == Some((nab, 4nat)));
}

/// Law: unary minus is right-recursive. A minus in front of a factor that is
/// itself a unary minus nests, so `--a` parses as the negation of the
/// negation of `a`, whatever the value is.
pub proof fn lemma_unary_minus_right_recursive(a: i32)
    ensures
        parse_tokens_spec(seq![Token::Minus, Token::Minus, Token::Int(a)]) == Ok::<
            Expr,
            CalcError,
        >(Expr::UnaryMinus(Box::new(Expr::UnaryMinus(Box::new(Expr::Integer(a)))))),
{
    let ts: Seq<Token> = seq![Token::Minus, Token::Minus, Token::Int(a)];
    let ea = Expr::Integer(a);
    let na = Expr::UnaryMinus(Box::new(ea));
    let nna = Expr::UnaryMinus(Box::new(na));
    assert(spec_factor(ts, 2) == Some((ea, 3nat)));
    assert(spec_factor(ts, 1) == Some((na, 3nat)));
    assert(spec_factor(ts, 0) == Some((nna, 3nat)));
    assert(spec_term_rest(ts, 3, nna) == Some((nna, 3nat)));
    assert(spec_term(ts, 0) == Some((nna, 3nat)));
    assert(spec_expr_rest(ts, 3, nna) == Some((nna, 3nat)));
    assert(spec_expr(ts, 0) == Some((nna, 3nat)));
}

/// Recognizes the calculator grammar, one equation per line.
pub struct CalculatorParser;

impl CalculatorParser {
    /// Parses one line of bytes into an AST, exactly as `parse_line_spec`
    /// says: tokens first, then the `equation` production over all of them.
    pub fn parse(line: &[u8]) -> (r: Result<Expr, CalcError>)
        ensures
            r == parse_line_spec(line@),
    {
        match tokenize(line) {
            Ok(ts) => parse_expr(&ts),
            Err(e) => Err(e),
        }
    }
}

} // verus!
