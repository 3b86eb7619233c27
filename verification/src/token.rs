use vstd::prelude::*;

use crate::error::CalcError;

verus! {

/// One lexical token of the grammar: an integer literal or a single-character
/// operator or parenthesis. Whitespace separates tokens and is dropped.
#[derive(Clone, Copy, Debug, PartialEq, Eq, Structural)]
pub enum Token {
    /// A run of decimal digits, already reduced to its value. The lexical
    /// level knows no sign: a leading minus is a separate `Minus` token.
    Int(i32),
    Plus,
    Minus,
    Star,
    Slash,
    Percent,
    LParen,
    RParen,
}

/// Whether a byte is a decimal digit.
pub open spec fn is_digit(c: u8) -> bool {
    48 <= c <= 57
}

/// Whether a byte is insignificant whitespace between tokens.
pub open spec fn is_space(c: u8) -> bool {
    c == 32 || c == 9
}

/// The first position at or after `i` that does not hold a digit.
pub open spec fn digits_end(s: Seq<u8>, i: nat) -> nat
    recommends
        i <= s.len(),
    decreases s.len() - i,
{
    if i < s.len() && is_digit(s[i as int]) {
        digits_end(s, i + 1)
    } else {
        i
    }
}

/// The decimal value of the digits `s[i..j]`.
pub open spec fn digits_val(s: Seq<u8>, i: nat, j: nat) -> int
    recommends
        i <= j <= s.len(),
    decreases j - i,
{
    if i < j {
        digits_val(s, i, (j - 1) as nat) * 10 + (s[j - 1] - 48)
    } else {
        0
    }
}

/// `digits_end` lands on the first non-digit: everything before it, from `i`
/// on, is a digit, and it stands at the end of the input or on a non-digit.
pub proof fn lemma_digits_end(s: Seq<u8>, i: nat)
    requires
        i <= s.len(),
    ensures
        i <= digits_end(s, i) <= s.len(),
        forall|k: int| i <= k < digits_end(s, i) ==> is_digit(#[trigger] s[k]),
        digits_end(s, i) == s.len() || !is_digit(s[digits_end(s, i) as int]),
    decreases s.len() - i,
{
    if i < s.len() && is_digit(s[i as int]) {
        lemma_digits_end(s, i + 1);
    }
}

/// The value of a digit run is never negative.
pub proof fn lemma_digits_val_nonneg(s: Seq<u8>, i: nat, j: nat)
    requires
        i <= j <= s.len(),
        forall|k: int| i <= k < j ==> is_digit(#[trigger] s[k]),
    ensures
        digits_val(s, i, j) >= 0,
    decreases j - i,
{
    if i < j {
        lemma_digits_val_nonneg(s, i, (j - 1) as nat);
    }
}

/// Extending a digit run to the right never shrinks its value.
pub proof fn lemma_digits_val_grows(s: Seq<u8>, i: nat, j: nat, k: nat)
    requires
        i <= j <= k <= s.len(),
        forall|m: int| i <= m < k ==> is_digit(#[trigger] s[m]),
    ensures
        digits_val(s, i, j) <= digits_val(s, i, k),
    decreases k - j,
{
    if j < k {
        lemma_digits_val_grows(s, i, j, (k - 1) as nat);
        lemma_digits_val_nonneg(s, i, (k - 1) as nat);
    }
}

/// Any position with only digits behind it, standing at the end of the input
/// or on a non-digit, is exactly `digits_end`.
pub proof fn lemma_digits_end_agrees(s: Seq<u8>, i: nat, j: nat)
    requires
        i <= j <= s.len(),
        forall|k: int| i <= k < j ==> is_digit(#[trigger] s[k]),
        j == s.len() || !is_digit(s[j as int]),
    ensures
        digits_end(s, i) == j,
    decreases j - i,
{
    if i < j {
        lemma_digits_end_agrees(s, i + 1, j);
    }
}

/// Puts one token in front of a tokenization, keeping any error.
pub open spec fn push_front(t: Token, rest: Result<Seq<Token>, CalcError>) -> Result<
    Seq<Token>,
    CalcError,
> {
    match rest {
        Ok(ts) => Ok(seq![t] + ts),
        Err(e) => Err(e),
    }
}

/// The tokens of `s` from position `i` on: whitespace dropped, digit runs
/// reduced to `Int` values within the 32-bit signed range, each operator and
/// parenthesis one token. A digit run beyond the range is `LiteralOverflow`;
/// any other unexpected byte is `SyntaxError`.
pub open spec fn tok_spec(s: Seq<u8>, i: nat) -> Result<Seq<Token>, CalcError>
    recommends
        i <= s.len(),
    decreases s.len() - i,
    via tok_spec_decreases
{
    if i >= s.len() {
        Ok(Seq::empty())
    } else if is_space(s[i as int]) {
        tok_spec(s, i + 1)
    } else if is_digit(s[i as int]) {
        let j = digits_end(s, i);
        if digits_val(s, i, j) > i32::MAX {
            Err(CalcError::LiteralOverflow)
        } else {
            push_front(Token::Int(digits_val(s, i, j) as i32), tok_spec(s, j))
        }
    } else if s[i as int] == 43 {
        push_front(Token::Plus, tok_spec(s, i + 1))
    } else if s[i as int] == 45 {
        push_front(Token::Minus, tok_spec(s, i + 1))
    } else if s[i as int] == 42 {
        push_front(Token::Star, tok_spec(s, i + 1))
    } else if s[i as int] == 47 {
        push_front(Token::Slash, tok_spec(s, i + 1))
    } else if s[i as int] == 37 {
        push_front(Token::Percent, tok_spec(s, i + 1))
    } else if s[i as int] == 40 {
        push_front(Token::LParen, tok_spec(s, i + 1))
    } else if s[i as int] == 41 {
        push_front(Token::RParen, tok_spec(s, i + 1))
    } else {
        Err(CalcError::SyntaxError)
    }
}

#[via_fn]
proof fn tok_spec_decreases(s: Seq<u8>, i: nat) {
    if i < s.len() && !is_space(s[i as int]) && is_digit(s[i as int]) {
        lemma_digits_end(s, i);
    }
}

/// Whether an executable tokenization agrees with the mathematical one.
pub open spec fn toks_ok(r: Result<Vec<Token>, CalcError>, m: Result<Seq<Token>, CalcError>) -> bool {
    match r {
        Ok(v) => m == Ok::<Seq<Token>, CalcError>(v@),
        Err(e) => m == Err::<Seq<Token>, CalcError>(e),
    }
}

/// Splits one line of bytes into its tokens, exactly as `tok_spec` says.
pub fn tokenize(s: &[u8]) -> (r: Result<Vec<Token>, CalcError>)
    ensures
        toks_ok(r, tok_spec(s@, 0)),
{
    tokenize_from(s, 0)
}

fn tokenize_from(s: &[u8], i: usize) -> (r: Result<Vec<Token>, CalcError>)
    requires
        i <= s@.len(),
    ensures
        toks_ok(r, tok_spec(s@, i as nat)),
    decreases s@.len() - i,
{
    if i >= s.len() {
        return Ok(Vec::new());
    }
    let c: u8 = s[i];
    if c == 32 || c == 9 {
        return tokenize_from(s, i + 1);
    }
    if 48 <= c && c <= 57 {
        let mut j: usize = i;
        let mut val: u64 = 0;
        while j < s.len() && 48 <= s[j] && s[j] <= 57
            invariant
                i <= j <= s@.len(),
                forall|k: int| i <= k < j ==> is_digit(#[trigger] s@[k]),
                val == digits_val(s@, i as nat, j as nat),
                val <= i32::MAX,
            decreases s@.len() - j,
        {
            let d: u8 = s[j] - 48;
            val = val * 10 + (d as u64);
            j = j + 1;
            if val > (i32::MAX as u64) {
                proof {
                    let end = digits_end(s@, i as nat);
                    lemma_digits_end(s@, i as nat);
                    assert(j <= end) by {
                        if end < j {
                            assert(is_digit(s@[end as int]));
                        }
                    }
                    lemma_digits_val_grows(s@, i as nat, j as nat, end);
                }
                return Err(CalcError::LiteralOverflow);
            }
        }
        proof {
            lemma_digits_end_agrees(s@, i as nat, j as nat);
        }
        let tok = Token::Int(val as i32);
        match tokenize_from(s, j) {
            Ok(mut rest) => {
                let ghost prev = rest@;
                rest.insert(0, tok);
                proof {
                    assert(rest@ =~= seq![tok] + prev);
                }
                Ok(rest)
            },
            Err(e) => Err(e),
        }
    } else {
        let tok: Token = if c == 43 {
            Token::Plus
        } else if c == 45 {
            Token::Minus
        } else if c == 42 {
            Token::Star
        } else if c == 47 {
            Token::Slash
        } else if c == 37 {
            Token::Percent
        } else if c == 40 {
            Token::LParen
        } else if c == 41 {
            Token::RParen
        } else {
            return Err(CalcError::SyntaxError);
        };
        match tokenize_from(s, i + 1) {
            Ok(mut rest) => {
                let ghost prev = rest@;
                rest.insert(0, tok);
                proof {
                    assert(rest@ =~= seq![tok] + prev);
                }
                Ok(rest)
            },
            Err(e) => Err(e),
        }
    }
}

} // verus!
