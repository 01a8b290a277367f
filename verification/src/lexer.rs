//! Tokenization: from a line of characters to the tokens of the grammar —
//! integer literals, the four operators, and parentheses — with whitespace
//! allowed anywhere between tokens. A character outside the grammar and a
//! literal exceeding `i64::MAX` each fail with the position at fault.

use vstd::prelude::*;

verus! {

use crate::expr::Op;

/// One token of the expression grammar. A literal is nonnegative (the
/// grammar has no unary minus) and at most `i64::MAX`.
#[derive(Clone, Copy, PartialEq, Eq, Structural, Debug)]
pub enum Token {
    Num(i64),
    Oper(Op),
    LParen,
    RParen,
}

/// Every way an input line can fail to parse. Tokenizer errors
/// (`InvalidChar`, `NumberTooLarge`) carry character positions; parser
/// errors carry token positions.
#[derive(Clone, Copy, PartialEq, Eq, Structural, Debug)]
pub enum ParseError {
    /// A character that no token of the grammar contains, at its character
    /// position.
    InvalidChar(usize),
    /// An integer literal exceeding `i64::MAX`, at the character position
    /// where the literal starts.
    NumberTooLarge(usize),
    /// A number or `(` was expected at this token position but is missing;
    /// the position equals the token count when the input ended too early
    /// (in particular, an empty line fails with `ExpectedAtom(0)`).
    ExpectedAtom(usize),
    /// The token position just after a parenthesized expression whose `)`
    /// is missing.
    UnclosedParen(usize),
    /// A complete expression ended, yet tokens remain; the position of the
    /// first leftover token.
    TrailingInput(usize),
}

pub open spec fn is_space_char(c: char) -> bool {
    c == ' ' || c == '\t' || c == '\n' || c == '\r'
}

pub open spec fn is_digit_char(c: char) -> bool {
    '0' as int <= c as int && c as int <= '9' as int
}

pub open spec fn digit_value(c: char) -> int {
    c as int - '0' as int
}

/// The token, if any, that a single non-space non-digit character denotes.
pub open spec fn char_token(c: char) -> Option<Token> {
    if c == '+' {
        Some(Token::Oper(Op::Plus))
    } else if c == '-' {
        Some(Token::Oper(Op::Minus))
    } else if c == '*' {
        Some(Token::Oper(Op::Mul))
    } else if c == '/' {
        Some(Token::Oper(Op::Div))
    } else if c == '(' {
        Some(Token::LParen)
    } else if c == ')' {
        Some(Token::RParen)
    } else {
        None
    }
}

/// The value of a digit sequence read in base ten.
pub open spec fn digits_val(s: Seq<char>) -> int
    decreases s.len(),
{
    if s.len() == 0 {
        0
    } else {
        digits_val(s.drop_last()) * 10 + digit_value(s.last())
    }
}

/// The first position at or after `i` holding no digit.
pub open spec fn digit_run_end(s: Seq<char>, i: int) -> int
    decreases s.len() - i,
{
    if i < s.len() && is_digit_char(s[i]) {
        digit_run_end(s, i + 1)
    } else {
        i
    }
}

/// The tokens of `s` from position `i` on, or the first tokenization error.
/// In the digit branch the literal's end is clamped into `[i + 1, s.len()]`;
/// a digit run never ends before the digit that starts it
/// (`lemma_digit_run_bounds`), so the clamp only makes that progress visible
/// to the termination check.
pub open spec fn spec_tokenize_at(s: Seq<char>, i: int) -> Result<Seq<Token>, ParseError>
    decreases s.len() - i,
{
    if i < 0 || i >= s.len() {
        Ok(Seq::empty())
    } else if is_space_char(s[i]) {
        spec_tokenize_at(s, i + 1)
    } else if is_digit_char(s[i]) {
        let j = digit_run_end(s, i + 1);
        let j2 = if j < i + 1 {
            i + 1
        } else if j > s.len() {
            s.len() as int
        } else {
            j
        };
        let v = digits_val(s.subrange(i, j2));
        if v > i64::MAX as int {
            Err(ParseError::NumberTooLarge(i as usize))
        } else {
            match spec_tokenize_at(s, j2) {
                Ok(rest) => Ok(seq![Token::Num(v as i64)] + rest),
                Err(e) => Err(e),
            }
        }
    } else {
        match char_token(s[i]) {
            None => Err(ParseError::InvalidChar(i as usize)),
            Some(tok) => match spec_tokenize_at(s, i + 1) {
                Ok(rest) => Ok(seq![tok] + rest),
                Err(e) => Err(e),
            },
        }
    }
}

/// The tokens of the whole line, or its first tokenization error.
pub open spec fn spec_tokenize(s: Seq<char>) -> Result<Seq<Token>, ParseError> {
    spec_tokenize_at(s, 0)
}

/// A digit run ends within the input, everything before its end is a digit,
/// and its end holds no digit.
pub proof fn lemma_digit_run_bounds(s: Seq<char>, a: int)
    requires
        0 <= a <= s.len(),
    ensures
        a <= digit_run_end(s, a) <= s.len(),
        forall|k: int| a <= k < digit_run_end(s, a) ==> is_digit_char(s[k]),
        digit_run_end(s, a) < s.len() ==> !is_digit_char(s[digit_run_end(s, a)]),
    decreases s.len() - a,
{
    if a < s.len() && is_digit_char(s[a]) {
        lemma_digit_run_bounds(s, a + 1);
    }
}

/// Skipping over known digits does not move a run's end.
pub proof fn lemma_digit_run_extend(s: Seq<char>, a: int, b: int)
    requires
        0 <= a <= b <= s.len(),
        forall|k: int| a <= k < b ==> is_digit_char(s[k]),
    ensures
        digit_run_end(s, a) == digit_run_end(s, b),
    decreases b - a,
{
    if a < b {
        lemma_digit_run_extend(s, a + 1, b);
    }
}

/// A sequence of digits has a nonnegative value.
pub proof fn lemma_digits_val_nonneg(s: Seq<char>)
    requires
        forall|k: int| 0 <= k < s.len() ==> is_digit_char(s[k]),
    ensures
        digits_val(s) >= 0,
    decreases s.len(),
{
    if s.len() > 0 {
        lemma_digits_val_nonneg(s.drop_last());
    }
}

/// Extending a digit literal to the right never shrinks its value.
pub proof fn lemma_digits_val_mono(s: Seq<char>, a: int, b: int, c: int)
    requires
        0 <= a <= b <= c <= s.len(),
        forall|k: int| a <= k < c ==> is_digit_char(s[k]),
    ensures
        digits_val(s.subrange(a, b)) <= digits_val(s.subrange(a, c)),
    decreases c - b,
{
    if b < c {
        let prev = s.subrange(a, c - 1);
        let cur = s.subrange(a, c);
        assert(cur.drop_last() =~= prev);
        assert(forall|k: int| 0 <= k < prev.len() ==> is_digit_char(#[trigger] prev[k]));
        lemma_digits_val_nonneg(prev);
        assert(digits_val(cur) == digits_val(prev) * 10 + digit_value(cur.last()));
        assert(digits_val(prev) * 10 >= digits_val(prev)) by (nonlinear_arith)
            requires
                digits_val(prev) >= 0,
        ;
        lemma_digits_val_mono(s, a, b, c - 1);
    }
}

/// True exactly on the whitespace the grammar ignores.
pub(crate) fn is_space(c: char) -> (b: bool)
    ensures
        b == is_space_char(c),
{
    let u = c as u32;
    u == 32 || u == 9 || u == 10 || u == 13
}

/// True exactly on the decimal digits.
fn is_digit(c: char) -> (b: bool)
    ensures
        b == is_digit_char(c),
{
    let u = c as u32;
    48 <= u && u <= 57
}

/// Tokenizes one line. Every outcome — the token sequence on success, the
/// error and its position on failure — equals what `spec_tokenize` says.
pub fn tokenize(s: &str) -> (r: Result<Vec<Token>, ParseError>)
    ensures
        match r {
            Ok(ts) => spec_tokenize(s@) == Ok::<Seq<Token>, ParseError>(ts@),
            Err(e) => spec_tokenize(s@) == Err::<Seq<Token>, ParseError>(e),
        },
{
    let n = s.unicode_len();
    let mut toks: Vec<Token> = Vec::new();
    let mut i: usize = 0;
    while i < n
        invariant
            n == s@.len(),
            i <= n,
            match spec_tokenize_at(s@, i as int) {
                Ok(rest) => spec_tokenize(s@) == Ok::<Seq<Token>, ParseError>(toks@ + rest),
                Err(e) => spec_tokenize(s@) == Err::<Seq<Token>, ParseError>(e),
            },
        decreases n - i,
    {
        let c = s.get_char(i);
        let u = c as u32;
        if u == 32 || u == 9 || u == 10 || u == 13 {
            assert(is_space_char(s@[i as int]));
            i += 1;
        } else if 48 <= u && u <= 57 {
            let start: usize = i;
            assert(is_digit_char(s@[start as int]));
            let mut v: u64 = (u - 48) as u64;
            i += 1;
            proof {
                assert(s@.subrange(start as int, start + 1).drop_last() =~= Seq::<char>::empty());
                assert(digits_val(Seq::<char>::empty()) == 0);
                assert(v as int == digits_val(s@.subrange(start as int, i as int)));
            }
            while i < n && is_digit(s.get_char(i))
                invariant
                    n == s@.len(),
                    start + 1 <= i <= n,
                    forall|k: int| start <= k < i ==> is_digit_char(s@[k]),
                    v as int == digits_val(s@.subrange(start as int, i as int)),
                    v <= i64::MAX as u64,
                    match spec_tokenize_at(s@, start as int) {
                        Ok(rest) => spec_tokenize(s@) == Ok::<Seq<Token>, ParseError>(toks@ + rest),
                        Err(e) => spec_tokenize(s@) == Err::<Seq<Token>, ParseError>(e),
                    },
                decreases n - i,
            {
                let c2 = s.get_char(i);
                let u2 = c2 as u32;
                assert(is_digit_char(s@[i as int]));
                let d: u64 = (u2 - 48) as u64;
                proof {
                    let cur = s@.subrange(start as int, i + 1);
                    assert(cur.drop_last() =~= s@.subrange(start as int, i as int));
                    assert(digits_val(cur) == v as int * 10 + d as int);
                }
                if v > (i64::MAX as u64 - d) / 10 {
                    proof {
                        // The literal already exceeds `i64::MAX` here, so the
                        // whole run it begins does too.
                        assert(v as int * 10 + d as int > i64::MAX as int) by (nonlinear_arith)
                            requires
                                v as int > (i64::MAX as int - d as int) / 10,
                                0 <= d as int <= 9,
                                v >= 0,
                        ;
                        lemma_digit_run_bounds(s@, start + 1);
                        lemma_digit_run_extend(s@, start + 1, i + 1);
                        let j = digit_run_end(s@, start + 1);
                        lemma_digit_run_bounds(s@, i + 1);
                        assert(j == digit_run_end(s@, i + 1) >= i + 1);
                        lemma_digits_val_mono(s@, start as int, i + 1, j);
                        assert(digits_val(s@.subrange(start as int, j)) > i64::MAX as int);
                        assert(spec_tokenize_at(s@, start as int) == Err::<
                            Seq<Token>,
                            ParseError,
                        >(ParseError::NumberTooLarge(start)));
                        assert(spec_tokenize(s@) == Err::<Seq<Token>, ParseError>(
                            ParseError::NumberTooLarge(start),
                        ));
                    }
                    return Err(ParseError::NumberTooLarge(start as usize));
                }
                v = v * 10 + d;
                i += 1;
            }
            proof {
                lemma_digit_run_extend(s@, start + 1, i as int);
                if i < n {
                    assert(!is_digit_char(s@[i as int]));
                }
                assert(digit_run_end(s@, i as int) == i as int);
                assert(digit_run_end(s@, start + 1) == i as int);
            }
            let ghost toks_before = toks@;
            toks.push(Token::Num(v as i64));
            proof {
                match spec_tokenize_at(s@, i as int) {
                    Ok(rest) => {
                        assert(spec_tokenize_at(s@, start as int) == Ok::<Seq<Token>, ParseError>(
                            seq![Token::Num(v as i64)] + rest,
                        ));
                        assert(toks@ + rest =~= toks_before + (seq![Token::Num(v as i64)] + rest));
                        assert(spec_tokenize(s@) == Ok::<Seq<Token>, ParseError>(toks@ + rest));
                    },
                    Err(e) => {
                        assert(spec_tokenize_at(s@, start as int) == Err::<Seq<Token>, ParseError>(
                            e,
                        ));
                        assert(spec_tokenize(s@) == Err::<Seq<Token>, ParseError>(e));
                    },
                }
            }
        } else {
            let tok_opt: Option<Token> = if u == 43 {
                Some(Token::Oper(Op::Plus))
            } else if u == 45 {
                Some(Token::Oper(Op::Minus))
            } else if u == 42 {
                Some(Token::Oper(Op::Mul))
            } else if u == 47 {
                Some(Token::Oper(Op::Div))
            } else if u == 40 {
                Some(Token::LParen)
            } else if u == 41 {
                Some(Token::RParen)
            } else {
                None
            };
            assert(char_token(s@[i as int]) == tok_opt);
            match tok_opt {
                None => {
                    return Err(ParseError::InvalidChar(i));
                },
                Some(tok) => {
                    let ghost toks_before = toks@;
                    toks.push(tok);
                    proof {
                        match spec_tokenize_at(s@, i + 1) {
                            Ok(rest) => {
                                assert(toks@ + rest =~= toks_before + (seq![tok] + rest));
                                assert(spec_tokenize(s@) == Ok::<Seq<Token>, ParseError>(toks@
                                    + rest));
                            },
                            Err(_) => {},
                        }
                    }
                    i += 1;
                },
            }
        }
    }
    proof {
        assert(toks@ + Seq::<Token>::empty() =~= toks@);
    }
    Ok(toks)
}

} // verus!
