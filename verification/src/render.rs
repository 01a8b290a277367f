//! Rendering of values, expressions and failure causes as text: decimal
//! digits for integers, the expression itself with the fewest parentheses
//! that preserve its grouping, and one description per failure.

use vstd::prelude::*;

verus! {

use crate::expr::{ArithmeticError, Expression, Op};
use crate::lexer::ParseError;

/// The character of one decimal digit.
pub open spec fn digit_char(d: int) -> char {
    if d == 0 {
        '0'
    } else if d == 1 {
        '1'
    } else if d == 2 {
        '2'
    } else if d == 3 {
        '3'
    } else if d == 4 {
        '4'
    } else if d == 5 {
        '5'
    } else if d == 6 {
        '6'
    } else if d == 7 {
        '7'
    } else if d == 8 {
        '8'
    } else {
        '9'
    }
}

/// The decimal digits of a nonnegative number, most significant first.
pub open spec fn dec_digits(n: nat) -> Seq<char>
    decreases n,
{
    if n < 10 {
        seq![digit_char(n as int)]
    } else {
        dec_digits(n / 10).push(digit_char((n % 10) as int))
    }
}

/// The decimal text of a signed number: a `-` sign before the digits of its
/// magnitude when it is negative.
pub open spec fn spec_i64_str(v: i64) -> Seq<char> {
    if v < 0 {
        seq!['-'] + dec_digits((-(v as int)) as nat)
    } else {
        dec_digits(v as nat)
    }
}

/// The digit characters of a digit-value sequence, read back to front.
pub open spec fn rev_digit_chars(ds: Seq<u8>) -> Seq<char> {
    Seq::new(ds.len(), |k: int| digit_char(ds[ds.len() - 1 - k] as int))
}

/// Appends one decimal digit character.
fn push_digit(out: &mut String, d: u8)
    requires
        d < 10,
    ensures
        final(out)@ == old(out)@ + seq![digit_char(d as int)],
{
    proof {
        reveal_strlit("0");
        reveal_strlit("1");
        reveal_strlit("2");
        reveal_strlit("3");
        reveal_strlit("4");
        reveal_strlit("5");
        reveal_strlit("6");
        reveal_strlit("7");
        reveal_strlit("8");
        reveal_strlit("9");
    }
    if d == 0 {
        out.append("0");
    } else if d == 1 {
        out.append("1");
    } else if d == 2 {
        out.append("2");
    } else if d == 3 {
        out.append("3");
    } else if d == 4 {
        out.append("4");
    } else if d == 5 {
        out.append("5");
    } else if d == 6 {
        out.append("6");
    } else if d == 7 {
        out.append("7");
    } else if d == 8 {
        out.append("8");
    } else {
        out.append("9");
    }
    proof {
        assert(old(out)@ + seq![digit_char(d as int)] =~= final(out)@);
    }
}

/// Renders a nonnegative number in decimal.
fn render_u64(x: u64) -> (r: String)
    ensures
        r@ == dec_digits(x as nat),
{
    let mut digits: Vec<u8> = Vec::new();
    let mut m: u64 = x;
    let d0: u8 = (m % 10) as u8;
    digits.push(d0);
    m = m / 10;
    proof {
        assert(rev_digit_chars(digits@) =~= seq![digit_char(d0 as int)]);
        if m > 0 {
            assert(dec_digits(x as nat) == dec_digits(m as nat).push(digit_char(d0 as int)));
            assert(dec_digits(m as nat).push(digit_char(d0 as int)) =~= dec_digits(m as nat)
                + rev_digit_chars(digits@));
        } else {
            assert(dec_digits(x as nat) =~= rev_digit_chars(digits@));
        }
    }
    while m > 0
        invariant
            digits@.len() >= 1,
            forall|k: int| 0 <= k < digits@.len() ==> digits@[k] < 10,
            if m > 0 {
                dec_digits(x as nat) == dec_digits(m as nat) + rev_digit_chars(digits@)
            } else {
                dec_digits(x as nat) == rev_digit_chars(digits@)
            },
        decreases m,
    {
        let d: u8 = (m % 10) as u8;
        let ghost m0 = m as nat;
        let ghost before = digits@;
        digits.push(d);
        m = m / 10;
        proof {
            assert(rev_digit_chars(digits@) =~= seq![digit_char(d as int)] + rev_digit_chars(
                before,
            ));
            assert(dec_digits(x as nat) == dec_digits(m0) + rev_digit_chars(before));
            if m > 0 {
                assert(m0 >= 10);
                assert(dec_digits(m0) == dec_digits(m as nat).push(digit_char(d as int)));
                assert(dec_digits(m as nat).push(digit_char(d as int)) + rev_digit_chars(before)
                    =~= dec_digits(m as nat) + rev_digit_chars(digits@));
            } else {
                assert(m0 < 10);
                assert(dec_digits(m0) =~= seq![digit_char(d as int)]);
                assert(dec_digits(m0) + rev_digit_chars(before) =~= rev_digit_chars(digits@));
            }
        }
    }
    let mut out = String::new();
    let mut k = digits.len();
    while k > 0
        invariant
            k <= digits@.len(),
            forall|j: int| 0 <= j < digits@.len() ==> digits@[j] < 10,
            out@ == rev_digit_chars(digits@).subrange(0, digits@.len() - k),
        decreases k,
    {
        k = k - 1;
        push_digit(&mut out, digits[k]);
        proof {
            assert(out@ =~= rev_digit_chars(digits@).subrange(0, digits@.len() - k));
        }
    }
    proof {
        assert(rev_digit_chars(digits@).subrange(0, digits@.len() as int) =~= rev_digit_chars(
            digits@,
        ));
    }
    out
}

/// Renders a signed number in decimal, with a leading `-` when negative.
pub fn render_i64(v: i64) -> (r: String)
    ensures
        r@ == spec_i64_str(v),
{
    if v >= 0 {
        let r = render_u64(v as u64);
        r
    } else {
        let mag: u64 = ((-(v + 1)) as u64) + 1;
        let mut out = String::new();
        proof {
            reveal_strlit("-");
        }
        out.append("-");
        let digits = render_u64(mag);
        out.append(digits.as_str());
        proof {
            assert(out@ =~= seq!['-'] + dec_digits((-(v as int)) as nat));
        }
        out
    }
}

/// The precedence of an operator: sums bind weakest, products strongest.
pub open spec fn prec(op: Op) -> int {
    match op {
        Op::Plus => 1,
        Op::Minus => 1,
        Op::Mul => 2,
        Op::Div => 2,
    }
}

/// The text of an operator, spaced as in `2 + 4`.
pub open spec fn op_str(op: Op) -> Seq<char> {
    match op {
        Op::Plus => seq![' ', '+', ' '],
        Op::Minus => seq![' ', '-', ' '],
        Op::Mul => seq![' ', '*', ' '],
        Op::Div => seq![' ', '/', ' '],
    }
}

/// The canonical text of an expression in a context that admits operators
/// of precedence `min_prec` and up: children are rendered in their own
/// operator's context (the right child one level tighter, since equal
/// levels group to the left), and a node weaker than its context is
/// parenthesized.
pub open spec fn spec_render_expr(e: Expression, min_prec: int) -> Seq<char>
    decreases e,
{
    match e {
        Expression::Numb(v) => spec_i64_str(v),
        Expression::Operator(op, l, r) => {
            let inner = spec_render_expr(*l, prec(op)) + op_str(op) + spec_render_expr(
                *r,
                prec(op) + 1,
            );
            if prec(op) < min_prec {
                seq!['('] + inner + seq![')']
            } else {
                inner
            }
        },
    }
}

/// The text of an operator, spaced as in `2 + 4`.
fn op_text(op: Op) -> (r: &'static str)
    ensures
        r@ == op_str(op),
{
    proof {
        reveal_strlit(" + ");
        reveal_strlit(" - ");
        reveal_strlit(" * ");
        reveal_strlit(" / ");
    }
    let r = match op {
        Op::Plus => " + ",
        Op::Minus => " - ",
        Op::Mul => " * ",
        Op::Div => " / ",
    };
    proof {
        assert(r@ =~= op_str(op));
    }
    r
}

/// The precedence of an operator.
fn prec_of(op: Op) -> (r: u8)
    ensures
        r as int == prec(op),
{
    match op {
        Op::Plus => 1,
        Op::Minus => 1,
        Op::Mul => 2,
        Op::Div => 2,
    }
}

/// Renders an expression with the fewest parentheses that keep its
/// grouping, exactly as `spec_render_expr` says.
fn render_expr_at(e: &Expression, min_prec: u8) -> (r: String)
    requires
        min_prec <= 3,
    ensures
        r@ == spec_render_expr(*e, min_prec as int),
    decreases *e,
{
    match e {
        Expression::Numb(v) => render_i64(*v),
        Expression::Operator(op, l, r) => {
            let p = prec_of(*op);
            let mut out = String::new();
            let paren = p < min_prec;
            proof {
                reveal_strlit("(");
                reveal_strlit(")");
            }
            if paren {
                out.append("(");
            }
            let lt = render_expr_at(l, p);
            out.append(lt.as_str());
            out.append(op_text(*op));
            let rt = render_expr_at(r, p + 1);
            out.append(rt.as_str());
            if paren {
                out.append(")");
            }
            proof {
                assert(out@ =~= spec_render_expr(*e, min_prec as int));
            }
            out
        },
    }
}

/// Renders an expression as a complete line fragment.
pub fn render_expr(e: &Expression) -> (r: String)
    ensures
        r@ == spec_render_expr(*e, 1),
{
    render_expr_at(e, 1)
}

/// The success line for an expression and its value, `2 + 4 = 6` style.
pub open spec fn spec_result_line(e: Expression, v: i64) -> Seq<char> {
    spec_render_expr(e, 1) + seq![' ', '=', ' '] + spec_i64_str(v)
}

/// Renders the success line for an expression and its value.
pub fn render_result_line(e: &Expression, v: i64) -> (r: String)
    ensures
        r@ == spec_result_line(*e, v),
{
    let mut out = render_expr_at(e, 1);
    proof {
        reveal_strlit(" = ");
    }
    out.append(" = ");
    let vt = render_i64(v);
    out.append(vt.as_str());
    proof {
        assert(out@ =~= spec_result_line(*e, v));
    }
    out
}

/// The description of a reduction failure.
pub open spec fn spec_arith_error_text(a: ArithmeticError) -> Seq<char> {
    "division by zero"@
}

/// Renders the description of a reduction failure.
pub fn render_arith_error(a: &ArithmeticError) -> (r: String)
    ensures
        r@ == spec_arith_error_text(*a),
{
    String::from_str("division by zero")
}

/// The description of a parse failure, with the position at fault.
pub open spec fn spec_parse_error_text(pe: ParseError) -> Seq<char> {
    match pe {
        ParseError::InvalidChar(p) => "unexpected character at position "@ + dec_digits(p as nat),
        ParseError::NumberTooLarge(p) => "number too large at position "@ + dec_digits(p as nat),
        ParseError::ExpectedAtom(p) => "expected a number or '(' at token "@ + dec_digits(p as nat),
        ParseError::UnclosedParen(p) => "missing ')' at token "@ + dec_digits(p as nat),
        ParseError::TrailingInput(p) => "trailing input at token "@ + dec_digits(p as nat),
    }
}

/// Renders the description of a parse failure.
pub fn render_parse_error(pe: &ParseError) -> (r: String)
    ensures
        r@ == spec_parse_error_text(*pe),
{
    let (head, p): (&'static str, usize) = match pe {
        ParseError::InvalidChar(p) => ("unexpected character at position ", *p),
        ParseError::NumberTooLarge(p) => ("number too large at position ", *p),
        ParseError::ExpectedAtom(p) => ("expected a number or '(' at token ", *p),
        ParseError::UnclosedParen(p) => ("missing ')' at token ", *p),
        ParseError::TrailingInput(p) => ("trailing input at token ", *p),
    };
    let mut out = String::from_str(head);
    let pt = render_u64(p as u64);
    out.append(pt.as_str());
    out
}

} // verus!
