//! The expression tree and its reducer: an expression is either an integer
//! leaf or a binary node owning its two operands; reduction collapses the
//! tree bottom-up to one `i64`, failing only on division by zero.
//!
//! Arithmetic policy: `+`, `-` and `*` wrap around on `i64` overflow, and the
//! one overflowing division (`i64::MIN / -1`) wraps to `i64::MIN`; division
//! truncates toward zero, as `lemma_div_truncates_toward_zero` states.

use vstd::prelude::*;

verus! {

use vstd::wrapping::i64_specs;

/// The four binary operators of the grammar.
#[derive(Clone, Copy, PartialEq, Eq, Structural, Debug)]
pub enum Op {
    Plus,
    Minus,
    Mul,
    Div,
}

/// An arithmetic formula: a leaf integer or an operator applied to two
/// exclusively owned subtrees. Built by the parser, consumed by `op_action`,
/// never shared and never mutated.
#[derive(PartialEq, Eq, Debug)]
pub enum Expression {
    Numb(i64),
    Operator(Op, Box<Expression>, Box<Expression>),
}

/// The one failure reduction can produce: a divisor reduced to zero.
#[derive(Clone, Copy, PartialEq, Eq, Structural, Debug)]
pub enum ArithmeticError {
    DivisionByZero,
}

/// Division with wrap-around at the single overflowing input pair:
/// `checked_div` truncates toward zero and refuses only `i64::MIN / -1`,
/// which wraps back to `i64::MIN`.
pub open spec fn wrap_div(a: i64, b: i64) -> i64
    recommends
        b != 0,
{
    match a.checked_div(b) {
        Some(q) => q,
        None => i64::MIN,
    }
}

/// The value of an expression: leaves are their own value; a node reduces
/// its left subtree, then its right, then applies its operator; a zero
/// divisor fails, and a failed subtree short-circuits the whole reduction.
pub open spec fn spec_eval(e: Expression) -> Result<i64, ArithmeticError>
    decreases e,
{
    match e {
        Expression::Numb(n) => Ok(n),
        Expression::Operator(op, l, r) => match spec_eval(*l) {
            Err(er) => Err(er),
            Ok(a) => match spec_eval(*r) {
                Err(er) => Err(er),
                Ok(b) => match op {
                    Op::Plus => Ok(i64_specs::wrapping_add(a, b)),
                    Op::Minus => Ok(i64_specs::wrapping_sub(a, b)),
                    Op::Mul => Ok(i64_specs::wrapping_mul(a, b)),
                    Op::Div => if b == 0 {
                        Err(ArithmeticError::DivisionByZero)
                    } else {
                        Ok(wrap_div(a, b))
                    },
                },
            },
        },
    }
}

/// Division truncates toward zero: apart from the one wrapping input pair
/// (`i64::MIN`, `-1`), the quotient `q` of `wrap_div` leaves a remainder
/// `a - q * b` that is smaller in magnitude than the divisor and never of
/// opposite sign to the dividend — so `7 / 2 == 3`, and `-7 / 2 == -3`
/// rather than `-4`.
pub proof fn lemma_div_truncates_toward_zero(a: i64, b: i64)
    requires
        b != 0,
        !(a == i64::MIN && b == -1),
    ensures
        ({
            let q = wrap_div(a, b) as int;
            let r = a - q * b;
            &&& a == q * b + r
            &&& (if b > 0 {
                -b < r < b
            } else {
                b < r < -b
            })
            &&& (r == 0 || (r < 0 <==> a < 0))
        }),
{
    let x = a as int;
    let d = b as int;
    let u = if x >= 0 {
        x
    } else {
        -x
    };
    let v = if d >= 0 {
        d
    } else {
        -d
    };
    vstd::arithmetic::div_mod::lemma_fundamental_div_mod(u, v);
    let qq = u / v;
    let m = u % v;
    assert(0 <= m < v);
    assert(0 <= qq <= u && (v >= 2 ==> qq * 2 <= u)) by (nonlinear_arith)
        requires
            u == v * qq + m,
            0 <= m < v,
            0 <= u,
            1 <= v,
    ;
    if x < 0 && d < 0 {
        if v == 1 {
            assert(u <= i64::MAX as int);
        }
    }
    let q = wrap_div(a, b) as int;
    assert(a.checked_div(b) is Some);
    if x == 0 {
        assert(q == 0);
    } else if x > 0 && d > 0 {
        assert(q == qq);
        assert(x - q * d == m) by (nonlinear_arith)
            requires
                u == v * qq + m,
                x == u,
                d == v,
                q == qq,
        ;
    } else if x < 0 && d < 0 {
        assert(q == qq);
        assert(x - q * d == -m) by (nonlinear_arith)
            requires
                u == v * qq + m,
                x == -u,
                d == -v,
                q == qq,
        ;
    } else if x < 0 {
        assert(q == qq * -1);
        assert(x - q * d == -m) by (nonlinear_arith)
            requires
                u == v * qq + m,
                x == -u,
                d == v,
                q == -qq,
        ;
    } else {
        assert(q == qq * -1);
        assert(x - q * d == m) by (nonlinear_arith)
            requires
                u == v * qq + m,
                x == u,
                d == -v,
                q == -qq,
        ;
    }
}

/// Reduces an expression tree to its value, left subtree before right,
/// reporting division by zero instead of crashing.
pub fn op_action(e: &Expression) -> (r: Result<i64, ArithmeticError>)
    ensures
        r == spec_eval(*e),
    decreases *e,
{
    match e {
        Expression::Numb(n) => Ok(*n),
        Expression::Operator(op, l, r) => {
            let lv = match op_action(l) {
                Ok(v) => v,
                Err(er) => {
                    return Err(er);
                },
            };
            let rv = match op_action(r) {
                Ok(v) => v,
                Err(er) => {
                    return Err(er);
                },
            };
            match op {
                Op::Plus => Ok(lv.wrapping_add(rv)),
                Op::Minus => Ok(lv.wrapping_sub(rv)),
                Op::Mul => Ok(lv.wrapping_mul(rv)),
                Op::Div => {
                    if rv == 0 {
                        Err(ArithmeticError::DivisionByZero)
                    } else if lv == i64::MIN && rv == -1 {
                        Ok(i64::MIN)
                    } else {
                        match lv.checked_div(rv) {
                            Some(q) => Ok(q),
                            None => Ok(i64::MIN),
                        }
                    }
                },
            }
        },
    }
}

} // verus!
