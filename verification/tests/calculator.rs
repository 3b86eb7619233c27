use calculator::{
    evaluate_line, parse_expr, tokenize, CalcError, CalculatorParser, Expr, Op, Token,
};

fn eval(line: &str) -> Result<i32, CalcError> {
    evaluate_line(line.as_bytes())
}

fn render(e: &Expr) -> String {
    match e {
        Expr::Integer(v) => format!("{}", v),
        Expr::UnaryMinus(inner) => format!("-({})", render(inner)),
        Expr::BinOp { lhs, op, rhs } => {
            let c = match op {
                Op::Add => '+',
                Op::Subtract => '-',
                Op::Multiply => '*',
                Op::Divide => '/',
                Op::Modulo => '%',
            };
            format!("({}{}{})", render(lhs), c, render(rhs))
        }
    }
}

#[test]
fn integer_leaf_evaluates_to_itself() {
    assert_eq!(Expr::Integer(0).evaluate(), Ok(0));
    assert_eq!(Expr::Integer(5).evaluate(), Ok(5));
    assert_eq!(Expr::Integer(-7).evaluate(), Ok(-7));
    assert_eq!(Expr::Integer(i32::MAX).evaluate(), Ok(i32::MAX));
    assert_eq!(Expr::Integer(i32::MIN).evaluate(), Ok(i32::MIN));
}

#[test]
fn subtraction_associates_left() {
    assert_eq!(eval("10-2-3"), Ok(5));
    assert_eq!(eval("100/10/5"), Ok(2));
    assert_eq!(eval("1-2-3-4"), Ok(-8));
}

#[test]
fn multiplication_binds_before_addition() {
    assert_eq!(eval("2+3*4"), Ok(14));
    assert_eq!(eval("2-8/4"), Ok(0));
    assert_eq!(eval("1+6%4"), Ok(3));
}

#[test]
fn parentheses_group_first() {
    assert_eq!(eval("(2+3)*4"), Ok(20));
    assert_eq!(eval("((2))"), Ok(2));
    assert_eq!(eval("(1+(2*(3+4)))"), Ok(15));
}

#[test]
fn unsupported_token_is_a_syntax_error() {
    assert_eq!(eval("-2^"), Err(CalcError::SyntaxError));
    assert_eq!(eval("2^3"), Err(CalcError::SyntaxError));
    assert_eq!(eval("1&2"), Err(CalcError::SyntaxError));
}

#[test]
fn unary_minus_binds_tighter_than_binary_operators() {
    assert_eq!(eval("-2*3"), Ok(-6));
    assert_eq!(eval("-2+3"), Ok(1));
    assert_eq!(eval("-(2+3)"), Ok(-5));
}

#[test]
fn unary_minus_is_right_recursive() {
    assert_eq!(eval("--2"), Ok(2));
    assert_eq!(eval("---2"), Ok(-2));
    assert_eq!(eval("--(2*-3)"), Ok(-6));
}

#[test]
fn division_truncates_toward_zero() {
    assert_eq!(eval("7/2"), Ok(3));
    assert_eq!(eval("-7/2"), Ok(-3));
    assert_eq!(eval("7/-2"), Ok(-3));
    assert_eq!(eval("-7/-2"), Ok(3));
}

#[test]
fn modulo_follows_dividend_sign() {
    assert_eq!(eval("7%-2"), Ok(1));
    assert_eq!(eval("-7%2"), Ok(-1));
    assert_eq!(eval("7%2"), Ok(1));
    assert_eq!(eval("-7%-2"), Ok(-1));
}

#[test]
fn division_by_zero_fails_gracefully() {
    assert_eq!(eval("5/0"), Err(CalcError::DivisionByZero));
    assert_eq!(eval("5/(3-3)"), Err(CalcError::DivisionByZero));
    assert_eq!(eval("0/0"), Err(CalcError::DivisionByZero));
}

#[test]
fn modulo_by_zero_fails_gracefully() {
    assert_eq!(eval("5%0"), Err(CalcError::DivisionByZero));
    assert_eq!(eval("5%(1-1)"), Err(CalcError::DivisionByZero));
}

#[test]
fn malformed_lines_fail_and_the_next_line_still_works() {
    assert_eq!(eval(""), Err(CalcError::SyntaxError));
    assert_eq!(eval("("), Err(CalcError::SyntaxError));
    assert_eq!(eval("1+"), Err(CalcError::SyntaxError));
    assert_eq!(eval("1 2"), Err(CalcError::SyntaxError));
    assert_eq!(eval("   "), Err(CalcError::SyntaxError));
    assert_eq!(eval(")"), Err(CalcError::SyntaxError));
    assert_eq!(eval("()"), Err(CalcError::SyntaxError));
    assert_eq!(eval("(1+2"), Err(CalcError::SyntaxError));
    assert_eq!(eval("1+1"), Ok(2));
}

#[test]
fn reevaluating_the_same_line_gives_the_same_answer() {
    let first = eval("6*7-2");
    let second = eval("6*7-2");
    assert_eq!(first, Ok(40));
    assert_eq!(first, second);
    let tree_a = CalculatorParser::parse(b"6*7-2");
    let tree_b = CalculatorParser::parse(b"6*7-2");
    assert_eq!(tree_a, tree_b);
    let bad_first = eval("1+");
    let bad_second = eval("1+");
    assert_eq!(bad_first, bad_second);
}

#[test]
fn literal_overflow_is_reported() {
    assert_eq!(eval("2147483648"), Err(CalcError::LiteralOverflow));
    assert_eq!(eval("99999999999999999999"), Err(CalcError::LiteralOverflow));
    assert_eq!(eval("2147483647"), Ok(i32::MAX));
    assert_eq!(eval("-2147483648"), Err(CalcError::LiteralOverflow));
    assert_eq!(eval("-2147483647"), Ok(-2147483647));
}

#[test]
fn arithmetic_overflow_is_reported() {
    assert_eq!(eval("2147483647+1"), Err(CalcError::ArithmeticOverflow));
    assert_eq!(eval("0-2147483647-2"), Err(CalcError::ArithmeticOverflow));
    assert_eq!(eval("1000000*1000000"), Err(CalcError::ArithmeticOverflow));
    assert_eq!(eval("-(0-2147483647-1)"), Err(CalcError::ArithmeticOverflow));
    assert_eq!(eval("(0-2147483647-1)/(0-1)"), Err(CalcError::ArithmeticOverflow));
    assert_eq!(eval("(0-2147483647-1)%(0-1)"), Err(CalcError::ArithmeticOverflow));
    assert_eq!(eval("2147483646+1"), Ok(i32::MAX));
}

#[test]
fn whitespace_between_tokens_is_insignificant() {
    assert_eq!(eval(" 1 + 2\t"), Ok(3));
    assert_eq!(eval("  12  "), Ok(12));
    assert_eq!(eval("( 2 + 3 ) * 4"), Ok(20));
}

#[test]
fn tokenize_splits_a_line_into_tokens() {
    assert_eq!(
        tokenize(b"1+20*(3-4)"),
        Ok(vec![
            Token::Int(1),
            Token::Plus,
            Token::Int(20),
            Token::Star,
            Token::LParen,
            Token::Int(3),
            Token::Minus,
            Token::Int(4),
            Token::RParen,
        ])
    );
    assert_eq!(
        tokenize(b" 5 %2/ "),
        Ok(vec![Token::Int(5), Token::Percent, Token::Int(2), Token::Slash])
    );
    assert_eq!(tokenize(b"1.5"), Err(CalcError::SyntaxError));
}

#[test]
fn parse_expr_builds_the_expected_tree() {
    let tokens = vec![Token::Int(1), Token::Plus, Token::Int(2)];
    let expected = Expr::BinOp {
        lhs: Box::new(Expr::Integer(1)),
        op: Op::Add,
        rhs: Box::new(Expr::Integer(2)),
    };
    assert_eq!(parse_expr(&tokens), Ok(expected));
    let leftover = vec![Token::Int(1), Token::Int(2)];
    assert_eq!(parse_expr(&leftover), Err(CalcError::SyntaxError));
}

#[test]
fn parser_builds_left_leaning_tree_for_equal_precedence() {
    let expected = Expr::BinOp {
        lhs: Box::new(Expr::BinOp {
            lhs: Box::new(Expr::Integer(10)),
            op: Op::Subtract,
            rhs: Box::new(Expr::Integer(2)),
        }),
        op: Op::Subtract,
        rhs: Box::new(Expr::Integer(3)),
    };
    assert_eq!(CalculatorParser::parse(b"10-2-3"), Ok(expected));
}

#[test]
fn error_messages_name_each_failure() {
    assert_eq!(
        CalcError::SyntaxError.message(),
        "the line does not match the grammar"
    );
    assert_eq!(CalcError::LiteralOverflow.message(), "integer literal out of range");
    assert_eq!(CalcError::ArithmeticOverflow.message(), "arithmetic overflow");
    assert_eq!(CalcError::DivisionByZero.message(), "division by zero");
}

#[test]
fn rendering_and_reparsing_reproduces_the_value() {
    let trees = vec![
        Expr::Integer(42),
        Expr::BinOp {
            lhs: Box::new(Expr::Integer(7)),
            op: Op::Divide,
            rhs: Box::new(Expr::Integer(2)),
        },
        Expr::BinOp {
            lhs: Box::new(Expr::UnaryMinus(Box::new(Expr::Integer(7)))),
            op: Op::Modulo,
            rhs: Box::new(Expr::Integer(3)),
        },
        Expr::BinOp {
            lhs: Box::new(Expr::BinOp {
                lhs: Box::new(Expr::Integer(2)),
                op: Op::Add,
                rhs: Box::new(Expr::Integer(3)),
            }),
            op: Op::Multiply,
            rhs: Box::new(Expr::UnaryMinus(Box::new(Expr::Integer(4)))),
        },
        Expr::BinOp {
            lhs: Box::new(Expr::BinOp {
                lhs: Box::new(Expr::BinOp {
                    lhs: Box::new(Expr::Integer(10)),
                    op: Op::Subtract,
                    rhs: Box::new(Expr::Integer(2)),
                }),
                op: Op::Subtract,
                rhs: Box::new(Expr::Integer(3)),
            }),
            op: Op::Add,
            rhs: Box::new(Expr::BinOp {
                lhs: Box::new(Expr::Integer(9)),
                op: Op::Divide,
                rhs: Box::new(Expr::UnaryMinus(Box::new(Expr::Integer(2)))),
            }),
        },
        Expr::UnaryMinus(Box::new(Expr::UnaryMinus(Box::new(Expr::BinOp {
            lhs: Box::new(Expr::Integer(6)),
            op: Op::Modulo,
            rhs: Box::new(Expr::Integer(4)),
        })))),
    ];
    for tree in &trees {
        let direct = tree.evaluate();
        assert!(direct.is_ok());
        let rendered = render(tree);
        assert_eq!(evaluate_line(rendered.as_bytes()), direct);
    }
}
