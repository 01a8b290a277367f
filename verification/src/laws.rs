//! Properties that relate the stages of the pipeline to one another: a
//! bare literal parses to its own value, and top-level `+`/`-` chains
//! group from the left.

use vstd::prelude::*;

verus! {

use vstd::wrapping::i64_specs;
use crate::expr::{ArithmeticError, Expression, Op, spec_eval};
use crate::lexer::{
    ParseError,
    Token,
    digits_val,
    is_digit_char,
    lemma_digit_run_extend,
    lemma_digits_val_nonneg,
    spec_tokenize,
    spec_tokenize_at,
};
use crate::parser::{
    spec_parse,
    spec_parse_atom,
    spec_parse_product,
    spec_parse_product_rest,
    spec_parse_sum,
    spec_parse_sum_rest,
    spec_parse_tokens,
};

/// A line holding one bare integer literal — digits and nothing else,
/// small enough for `i64` — parses to exactly that number's leaf, which
/// reduces to exactly that number.
pub proof fn lemma_number_literal(s: Seq<char>)
    requires
        s.len() > 0,
        forall|k: int| 0 <= k < s.len() ==> is_digit_char(s[k]),
        digits_val(s) <= i64::MAX as int,
    ensures
        spec_parse(s) == Ok::<Expression, ParseError>(Expression::Numb(digits_val(s) as i64)),
        spec_eval(Expression::Numb(digits_val(s) as i64)) == Ok::<i64, ArithmeticError>(
            digits_val(s) as i64,
        ),
{
    let n = s.len() as int;
    lemma_digits_val_nonneg(s);
    let v = digits_val(s) as i64;
    lemma_digit_run_extend(s, 1, n);
    assert(s.subrange(0, n) =~= s);
    let ts = seq![Token::Num(v)];
    assert(spec_tokenize_at(s, n) == Ok::<Seq<Token>, ParseError>(Seq::empty()));
    assert(seq![Token::Num(v)] + Seq::<Token>::empty() =~= ts);
    assert(spec_tokenize(s) == Ok::<Seq<Token>, ParseError>(ts));
    assert(spec_parse_atom(ts, 0) == Ok::<(Expression, int), ParseError>((Expression::Numb(v), 1)));
    assert(spec_parse_product_rest(ts, 1, Expression::Numb(v)) == Ok::<
        (Expression, int),
        ParseError,
    >((Expression::Numb(v), 1)));
    assert(spec_parse_product(ts, 0) == Ok::<(Expression, int), ParseError>((
        Expression::Numb(v),
        1,
    )));
    assert(spec_parse_sum_rest(ts, 1, Expression::Numb(v)) == Ok::<(Expression, int), ParseError>(
        (Expression::Numb(v), 1),
    ));
    assert(spec_parse_sum(ts, 0) == Ok::<(Expression, int), ParseError>((Expression::Numb(v), 1)));
    assert(spec_parse_tokens(ts) == Ok::<Expression, ParseError>(Expression::Numb(v)));
}

/// The token tail `op v op v …` of a chain, operators and operands
/// alternating.
pub open spec fn alt_suffix(ops: Seq<Op>, vals: Seq<i64>) -> Seq<Token>
    recommends
        ops.len() == vals.len(),
    decreases ops.len(),
{
    if ops.len() == 0 {
        Seq::empty()
    } else {
        seq![Token::Oper(ops[0]), Token::Num(vals[0])] + alt_suffix(
            ops.drop_first(),
            vals.drop_first(),
        )
    }
}

/// The tokens of a whole chain `v0 op1 v1 … opn vn`.
pub open spec fn sum_chain_tokens(vals: Seq<i64>, ops: Seq<Op>) -> Seq<Token>
    recommends
        vals.len() == ops.len() + 1,
{
    seq![Token::Num(vals[0])] + alt_suffix(ops, vals.drop_first())
}

/// The tree a left-to-right fold of the chain's steps onto `acc` builds:
/// each step becomes a node whose left subtree is everything before it.
pub open spec fn left_fold_tree(acc: Expression, ops: Seq<Op>, vals: Seq<i64>) -> Expression
    recommends
        ops.len() == vals.len(),
    decreases ops.len(),
{
    if ops.len() == 0 {
        acc
    } else {
        left_fold_tree(
            Expression::Operator(ops[0], Box::new(acc), Box::new(Expression::Numb(vals[0]))),
            ops.drop_first(),
            vals.drop_first(),
        )
    }
}

/// The value a left-to-right fold of `+`/`-` steps onto `a` computes.
pub open spec fn left_fold_value(a: i64, ops: Seq<Op>, vals: Seq<i64>) -> i64
    recommends
        ops.len() == vals.len(),
        forall|k: int| 0 <= k < ops.len() ==> ops[k] == Op::Plus || ops[k] == Op::Minus,
    decreases ops.len(),
{
    if ops.len() == 0 {
        a
    } else {
        let a2 = if ops[0] == Op::Plus {
            i64_specs::wrapping_add(a, vals[0])
        } else {
            i64_specs::wrapping_sub(a, vals[0])
        };
        left_fold_value(a2, ops.drop_first(), vals.drop_first())
    }
}

proof fn lemma_alt_suffix_len(ops: Seq<Op>, vals: Seq<i64>)
    requires
        ops.len() == vals.len(),
    ensures
        alt_suffix(ops, vals).len() == 2 * ops.len(),
    decreases ops.len(),
{
    if ops.len() > 0 {
        lemma_alt_suffix_len(ops.drop_first(), vals.drop_first());
    }
}

/// Folding the remaining `+`/`-` steps of a chain is exactly what
/// `spec_parse_sum_rest` does.
proof fn lemma_sum_rest_chain(
    ts: Seq<Token>,
    i: int,
    acc: Expression,
    ops: Seq<Op>,
    vals: Seq<i64>,
)
    requires
        ops.len() == vals.len(),
        0 <= i <= ts.len(),
        ts.subrange(i, ts.len() as int) == alt_suffix(ops, vals),
        forall|k: int| 0 <= k < ops.len() ==> ops[k] == Op::Plus || ops[k] == Op::Minus,
    ensures
        spec_parse_sum_rest(ts, i, acc) == Ok::<(Expression, int), ParseError>(
            (left_fold_tree(acc, ops, vals), ts.len() as int),
        ),
    decreases ops.len(),
{
    let n = ts.len() as int;
    lemma_alt_suffix_len(ops, vals);
    assert(n - i == 2 * ops.len());
    if ops.len() == 0 {
        assert(i == n);
    } else {
        assert(ts[i] == ts.subrange(i, n)[0]);
        assert(ts[i] == Token::Oper(ops[0]));
        assert(ts[i + 1] == ts.subrange(i, n)[1]);
        assert(ts[i + 1] == Token::Num(vals[0]));
        assert(spec_parse_atom(ts, i + 1) == Ok::<(Expression, int), ParseError>((
            Expression::Numb(vals[0]),
            i + 2,
        )));
        if i + 2 < n {
            assert(ts[i + 2] == ts.subrange(i, n)[2]);
            assert(ts.subrange(i, n)[2] == alt_suffix(ops.drop_first(), vals.drop_first())[0]);
            assert(ts[i + 2] == Token::Oper(ops.drop_first()[0]));
            assert(ops.drop_first()[0] == ops[1]);
        }
        assert(spec_parse_product_rest(ts, i + 2, Expression::Numb(vals[0])) == Ok::<
            (Expression, int),
            ParseError,
        >((Expression::Numb(vals[0]), i + 2)));
        assert(spec_parse_product(ts, i + 1) == Ok::<(Expression, int), ParseError>((
            Expression::Numb(vals[0]),
            i + 2,
        )));
        let acc2 = Expression::Operator(
            ops[0],
            Box::new(acc),
            Box::new(Expression::Numb(vals[0])),
        );
        lemma_alt_suffix_len(ops.drop_first(), vals.drop_first());
        assert forall|k: int| 0 <= k < n - i - 2 implies ts.subrange(i + 2, n)[k] == alt_suffix(
            ops.drop_first(),
            vals.drop_first(),
        )[k] by {
            assert(ts.subrange(i + 2, n)[k] == ts[i + 2 + k]);
            assert(ts[i + 2 + k] == ts.subrange(i, n)[k + 2]);
            assert(alt_suffix(ops, vals)[k + 2] == alt_suffix(
                ops.drop_first(),
                vals.drop_first(),
            )[k]);
        };
        assert(ts.subrange(i + 2, n) =~= alt_suffix(ops.drop_first(), vals.drop_first()));
        lemma_sum_rest_chain(ts, i + 2, acc2, ops.drop_first(), vals.drop_first());
        assert(spec_parse_sum_rest(ts, i, acc) == spec_parse_sum_rest(ts, i + 2, acc2));
    }
}

/// Reducing the left fold of `+`/`-` steps folds the values the same way.
proof fn lemma_eval_left_fold(acc: Expression, a: i64, ops: Seq<Op>, vals: Seq<i64>)
    requires
        ops.len() == vals.len(),
        spec_eval(acc) == Ok::<i64, ArithmeticError>(a),
        forall|k: int| 0 <= k < ops.len() ==> ops[k] == Op::Plus || ops[k] == Op::Minus,
    ensures
        spec_eval(left_fold_tree(acc, ops, vals)) == Ok::<i64, ArithmeticError>(
            left_fold_value(a, ops, vals),
        ),
    decreases ops.len(),
{
    if ops.len() > 0 {
        let acc2 = Expression::Operator(
            ops[0],
            Box::new(acc),
            Box::new(Expression::Numb(vals[0])),
        );
        let a2 = if ops[0] == Op::Plus {
            i64_specs::wrapping_add(a, vals[0])
        } else {
            i64_specs::wrapping_sub(a, vals[0])
        };
        assert(spec_eval(Expression::Numb(vals[0])) == Ok::<i64, ArithmeticError>(vals[0]));
        assert(spec_eval(acc2) == Ok::<i64, ArithmeticError>(a2));
        lemma_eval_left_fold(acc2, a2, ops.drop_first(), vals.drop_first());
    }
}

/// Chains of `+` and `-` at the top level, with no parentheses, are
/// left-associative: a line that tokenizes to `v0 op1 v1 … opn vn` parses
/// to the left-grouped tree — `a - b - c` is `(a - b) - c` — and that tree
/// reduces to the left-to-right fold of the values.
pub proof fn lemma_sum_left_associative(s: Seq<char>, vals: Seq<i64>, ops: Seq<Op>)
    requires
        vals.len() == ops.len() + 1,
        spec_tokenize(s) == Ok::<Seq<Token>, ParseError>(sum_chain_tokens(vals, ops)),
        forall|k: int| 0 <= k < ops.len() ==> ops[k] == Op::Plus || ops[k] == Op::Minus,
    ensures
        spec_parse(s) == Ok::<Expression, ParseError>(
            left_fold_tree(Expression::Numb(vals[0]), ops, vals.drop_first()),
        ),
        spec_eval(left_fold_tree(Expression::Numb(vals[0]), ops, vals.drop_first())) == Ok::<
            i64,
            ArithmeticError,
        >(left_fold_value(vals[0], ops, vals.drop_first())),
{
    let ts = sum_chain_tokens(vals, ops);
    let n = ts.len() as int;
    lemma_alt_suffix_len(ops, vals.drop_first());
    assert(n == 1 + 2 * ops.len());
    assert(ts[0] == Token::Num(vals[0]));
    assert(spec_parse_atom(ts, 0) == Ok::<(Expression, int), ParseError>((
        Expression::Numb(vals[0]),
        1,
    )));
    if 1 < n {
        assert(ts[1] == alt_suffix(ops, vals.drop_first())[0]);
        assert(ts[1] == Token::Oper(ops[0]));
    }
    assert(spec_parse_product_rest(ts, 1, Expression::Numb(vals[0])) == Ok::<
        (Expression, int),
        ParseError,
    >((Expression::Numb(vals[0]), 1)));
    assert(spec_parse_product(ts, 0) == Ok::<(Expression, int), ParseError>((
        Expression::Numb(vals[0]),
        1,
    )));
    assert(ts.subrange(1, n) =~= alt_suffix(ops, vals.drop_first()));
    lemma_sum_rest_chain(ts, 1, Expression::Numb(vals[0]), ops, vals.drop_first());
    assert(spec_parse_tokens(ts) == Ok::<Expression, ParseError>(
        left_fold_tree(Expression::Numb(vals[0]), ops, vals.drop_first()),
    ));
    lemma_eval_left_fold(Expression::Numb(vals[0]), vals[0], ops, vals.drop_first());
}

} // verus!
