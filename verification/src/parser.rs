//! Recursive-descent parsing of the expression grammar, lowest precedence
//! first and left-associative by folding:
//!
//! ```text
//! sum     := product ( ('+' | '-') product )*
//! product := atom    ( ('*' | '/') atom )*
//! atom    := integer | '(' sum ')'
//! ```
//!
//! The grammar has no unary minus: a leading `-` is a parse error. The
//! specification parser below is the grammar written as a deterministic
//! function over the token sequence; `parse` returns exactly its verdict,
//! on success and on every failure alike.

use vstd::prelude::*;

verus! {

use crate::expr::{Expression, Op};
use crate::lexer::{ParseError, Token, spec_tokenize, tokenize};

/// Clamps a continuation position into `[lo, len]`. Each parsing level
/// consumes at least one token, so the positions it returns already lie in
/// that interval; the clamp only makes the progress visible to the
/// termination check of the mutually recursive definitions.
pub open spec fn clamp_pos(j: int, lo: int, len: int) -> int {
    if j < lo {
        lo
    } else if j > len {
        len
    } else {
        j
    }
}

/// Parses one atom at token position `i`: an integer literal, or a
/// parenthesized sum. On success the returned position is the first token
/// after the atom.
pub open spec fn spec_parse_atom(ts: Seq<Token>, i: int) -> Result<
    (Expression, int),
    ParseError,
>
    recommends
        0 <= i <= ts.len(),
    decreases ts.len() - i, 0int,
{
    if 0 <= i < ts.len() {
        match ts[i] {
            Token::Num(v) => Ok((Expression::Numb(v), i + 1)),
            Token::LParen => match spec_parse_sum(ts, i + 1) {
                Ok((e, j)) => if 0 <= j < ts.len() && ts[j] == Token::RParen {
                    Ok((e, j + 1))
                } else {
                    Err(ParseError::UnclosedParen(if j < 0 {
                        0
                    } else {
                        j as usize
                    }))
                },
                Err(e) => Err(e),
            },
            _ => Err(ParseError::ExpectedAtom(i as usize)),
        }
    } else {
        Err(ParseError::ExpectedAtom(if i < 0 {
            0
        } else {
            i as usize
        }))
    }
}

/// Folds `('*' | '/') atom` repetitions onto `acc`, left to right.
pub open spec fn spec_parse_product_rest(ts: Seq<Token>, i: int, acc: Expression) -> Result<
    (Expression, int),
    ParseError,
>
    recommends
        0 <= i <= ts.len(),
    decreases ts.len() - i, 1int,
{
    if 0 <= i < ts.len() && (ts[i] == Token::Oper(Op::Mul) || ts[i] == Token::Oper(Op::Div)) {
        let op = if ts[i] == Token::Oper(Op::Mul) {
            Op::Mul
        } else {
            Op::Div
        };
        match spec_parse_atom(ts, i + 1) {
            Ok((r, j)) => spec_parse_product_rest(
                ts,
                clamp_pos(j, i + 1, ts.len() as int),
                Expression::Operator(op, Box::new(acc), Box::new(r)),
            ),
            Err(e) => Err(e),
        }
    } else {
        Ok((acc, i))
    }
}

/// Parses a product at token position `i`: an atom followed by any number
/// of `*` or `/` steps, grouped from the left.
pub open spec fn spec_parse_product(ts: Seq<Token>, i: int) -> Result<
    (Expression, int),
    ParseError,
>
    recommends
        0 <= i <= ts.len(),
    decreases ts.len() - i, 2int,
{
    if 0 <= i <= ts.len() {
        match spec_parse_atom(ts, i) {
            Ok((e, j)) => spec_parse_product_rest(ts, clamp_pos(j, i, ts.len() as int), e),
            Err(e) => Err(e),
        }
    } else {
        Err(ParseError::ExpectedAtom(0))
    }
}

/// Folds `('+' | '-') product` repetitions onto `acc`, left to right.
pub open spec fn spec_parse_sum_rest(ts: Seq<Token>, i: int, acc: Expression) -> Result<
    (Expression, int),
    ParseError,
>
    recommends
        0 <= i <= ts.len(),
    decreases ts.len() - i, 3int,
{
    if 0 <= i < ts.len() && (ts[i] == Token::Oper(Op::Plus) || ts[i] == Token::Oper(Op::Minus)) {
        let op = if ts[i] == Token::Oper(Op::Plus) {
            Op::Plus
        } else {
            Op::Minus
        };
        match spec_parse_product(ts, i + 1) {
            Ok((r, j)) => spec_parse_sum_rest(
                ts,
                clamp_pos(j, i + 1, ts.len() as int),
                Expression::Operator(op, Box::new(acc), Box::new(r)),
            ),
            Err(e) => Err(e),
        }
    } else {
        Ok((acc, i))
    }
}

/// Parses a sum at token position `i`: a product followed by any number of
/// `+` or `-` steps, grouped from the left. This is the grammar's start
/// symbol.
pub open spec fn spec_parse_sum(ts: Seq<Token>, i: int) -> Result<(Expression, int), ParseError>
    recommends
        0 <= i <= ts.len(),
    decreases ts.len() - i, 4int,
{
    if 0 <= i <= ts.len() {
        match spec_parse_product(ts, i) {
            Ok((e, j)) => spec_parse_sum_rest(ts, clamp_pos(j, i, ts.len() as int), e),
            Err(e) => Err(e),
        }
    } else {
        Err(ParseError::ExpectedAtom(0))
    }
}

/// The expression of a whole token sequence: one sum, with nothing left
/// over.
pub open spec fn spec_parse_tokens(ts: Seq<Token>) -> Result<Expression, ParseError> {
    match spec_parse_sum(ts, 0) {
        Ok((e, j)) => if j == ts.len() {
            Ok(e)
        } else {
            Err(ParseError::TrailingInput(if j < 0 {
                0
            } else {
                j as usize
            }))
        },
        Err(e) => Err(e),
    }
}

/// The expression of a whole line of characters, or its first failure:
/// tokenize, then parse.
pub open spec fn spec_parse(s: Seq<char>) -> Result<Expression, ParseError> {
    match spec_tokenize(s) {
        Ok(ts) => spec_parse_tokens(ts),
        Err(e) => Err(e),
    }
}

/// Parses one atom, returning exactly the verdict of `spec_parse_atom`.
fn parse_atom(ts: &Vec<Token>, i: usize) -> (r: Result<(Expression, usize), ParseError>)
    requires
        i <= ts@.len(),
    ensures
        match r {
            Ok((e, j)) => spec_parse_atom(ts@, i as int) == Ok::<(Expression, int), ParseError>(
                (e, j as int),
            ) && i < j <= ts@.len(),
            Err(pe) => spec_parse_atom(ts@, i as int) == Err::<(Expression, int), ParseError>(pe),
        },
    decreases ts@.len() - i, 0int,
{
    if i < ts.len() {
        match ts[i] {
            Token::Num(v) => Ok((Expression::Numb(v), i + 1)),
            Token::LParen => match parse_sum(ts, i + 1) {
                Ok((e, j)) => {
                    if j < ts.len() && ts[j] == Token::RParen {
                        Ok((e, j + 1))
                    } else {
                        Err(ParseError::UnclosedParen(j))
                    }
                },
                Err(e) => Err(e),
            },
            _ => Err(ParseError::ExpectedAtom(i)),
        }
    } else {
        Err(ParseError::ExpectedAtom(i))
    }
}

/// Parses a product, returning exactly the verdict of `spec_parse_product`.
fn parse_product(ts: &Vec<Token>, i: usize) -> (r: Result<(Expression, usize), ParseError>)
    requires
        i <= ts@.len(),
    ensures
        match r {
            Ok((e, j)) => spec_parse_product(ts@, i as int) == Ok::<
                (Expression, int),
                ParseError,
            >((e, j as int)) && i < j <= ts@.len(),
            Err(pe) => spec_parse_product(ts@, i as int) == Err::<(Expression, int), ParseError>(
                pe,
            ),
        },
    decreases ts@.len() - i, 2int,
{
    let (first, mut j) = match parse_atom(ts, i) {
        Ok(p) => p,
        Err(e) => {
            return Err(e);
        },
    };
    let mut acc = first;
    loop
        invariant
            i < j <= ts@.len(),
            spec_parse_product(ts@, i as int) == spec_parse_product_rest(ts@, j as int, acc),
        decreases ts@.len() - j,
    {
        if j >= ts.len() {
            return Ok((acc, j));
        }
        let op: Op;
        match ts[j] {
            Token::Oper(o) => {
                if matches!(o, Op::Mul) || matches!(o, Op::Div) {
                    op = o;
                } else {
                    return Ok((acc, j));
                }
            },
            _ => {
                return Ok((acc, j));
            },
        }
        match parse_atom(ts, j + 1) {
            Ok((r, k)) => {
                acc = Expression::Operator(op, Box::new(acc), Box::new(r));
                j = k;
            },
            Err(e) => {
                return Err(e);
            },
        }
    }
}

/// Parses a sum, returning exactly the verdict of `spec_parse_sum`.
fn parse_sum(ts: &Vec<Token>, i: usize) -> (r: Result<(Expression, usize), ParseError>)
    requires
        i <= ts@.len(),
    ensures
        match r {
            Ok((e, j)) => spec_parse_sum(ts@, i as int) == Ok::<(Expression, int), ParseError>(
                (e, j as int),
            ) && i < j <= ts@.len(),
            Err(pe) => spec_parse_sum(ts@, i as int) == Err::<(Expression, int), ParseError>(pe),
        },
    decreases ts@.len() - i, 4int,
{
    let (first, mut j) = match parse_product(ts, i) {
        Ok(p) => p,
        Err(e) => {
            return Err(e);
        },
    };
    let mut acc = first;
    loop
        invariant
            i < j <= ts@.len(),
            spec_parse_sum(ts@, i as int) == spec_parse_sum_rest(ts@, j as int, acc),
        decreases ts@.len() - j,
    {
        if j >= ts.len() {
            return Ok((acc, j));
        }
        let op: Op;
        match ts[j] {
            Token::Oper(o) => {
                if matches!(o, Op::Plus) || matches!(o, Op::Minus) {
                    op = o;
                } else {
                    return Ok((acc, j));
                }
            },
            _ => {
                return Ok((acc, j));
            },
        }
        match parse_product(ts, j + 1) {
            Ok((r, k)) => {
                acc = Expression::Operator(op, Box::new(acc), Box::new(r));
                j = k;
            },
            Err(e) => {
                return Err(e);
            },
        }
    }
}

/// Parses one line into an expression tree. Success, the tree built, the
/// error and the position at fault all equal what `spec_parse` says of the
/// line's characters; no input makes this panic.
pub fn parse(s: &str) -> (r: Result<Expression, ParseError>)
    ensures
        match r {
            Ok(e) => spec_parse(s@) == Ok::<Expression, ParseError>(e),
            Err(pe) => spec_parse(s@) == Err::<Expression, ParseError>(pe),
        },
{
    let ts = match tokenize(s) {
        Ok(ts) => ts,
        Err(e) => {
            return Err(e);
        },
    };
    match parse_sum(&ts, 0) {
        Ok((e, j)) => {
            if j == ts.len() {
                Ok(e)
            } else {
                Err(ParseError::TrailingInput(j))
            }
        },
        Err(e) => Err(e),
    }
}

} // verus!
