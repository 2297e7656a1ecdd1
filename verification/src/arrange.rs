//! What the postfix converter keeps of a token list: its operators, each as
//! often as it occurs, and its other tokens in their order, among which it
//! only adds the implicit argument.

use crate::lexer::{placeholder, placeholders};
use crate::postfix::{
    chunks_postfix, drain, expr_postfix, needed, next_comma, pop_while, shunt_run, shunt_step,
    stays, to_postfix_spec, top_up, ShuntModel,
};
use crate::tokens::TokenModel;
use vstd::multiset::Multiset;
use vstd::prelude::*;

verus! {

/// The operator tokens among `ts`, each as often as it occurs.
pub open spec fn operators_in(ts: Seq<TokenModel>) -> Multiset<TokenModel>
    decreases ts.len(),
{
    if ts.len() == 0 {
        Multiset::empty()
    } else if ts.last() is Operator {
        operators_in(ts.drop_last()).insert(ts.last())
    } else {
        operators_in(ts.drop_last())
    }
}

/// The tokens of `ts` that are neither operators nor commas, in their
/// order.
pub open spec fn operands_in(ts: Seq<TokenModel>) -> Seq<TokenModel>
    decreases ts.len(),
{
    if ts.len() == 0 {
        Seq::empty()
    } else if ts.last() is Operator || ts.last() is Comma {
        operands_in(ts.drop_last())
    } else {
        operands_in(ts.drop_last()).push(ts.last())
    }
}

/// A token as the converter hands it on: a block with its body in postfix
/// form, any other token as it is.
pub open spec fn handed_on(t: TokenModel) -> TokenModel {
    match t {
        TokenModel::Block(body, c, name) => match to_postfix_spec(body) {
            Some(converted) => TokenModel::Block(converted, c, name),
            None => t,
        },
        _ => t,
    }
}

/// The tokens of `ts` that are neither operators nor commas, in their
/// order, each as the converter hands it on.
pub open spec fn operands_handed_on(ts: Seq<TokenModel>) -> Seq<TokenModel>
    decreases ts.len(),
{
    if ts.len() == 0 {
        Seq::empty()
    } else if ts.last() is Operator || ts.last() is Comma {
        operands_handed_on(ts.drop_last())
    } else {
        operands_handed_on(ts.drop_last()).push(handed_on(ts.last()))
    }
}

/// Whether `b` is `a` with implicit arguments put in: `b` holds the tokens
/// of `a` in their order, and whatever else it holds is the implicit
/// argument.
pub open spec fn padded(a: Seq<TokenModel>, b: Seq<TokenModel>) -> bool
    decreases b.len(),
{
    if b.len() == 0 {
        a.len() == 0
    } else {
        ||| (a.len() > 0 && a.last() == b.last() && padded(a.drop_last(), b.drop_last()))
        ||| (b.last() == placeholder() && padded(a, b.drop_last()))
    }
}

/// A token list is itself with nothing put in.
pub proof fn lemma_padded_same(a: Seq<TokenModel>)
    ensures
        padded(a, a),
    decreases a.len(),
{
    if a.len() > 0 {
        lemma_padded_same(a.drop_last());
    }
}

/// The same token at the end of both lists keeps the relation.
pub proof fn lemma_padded_push(a: Seq<TokenModel>, b: Seq<TokenModel>, t: TokenModel)
    requires
        padded(a, b),
    ensures
        padded(a.push(t), b.push(t)),
{
    assert(a.push(t).drop_last() =~= a);
    assert(b.push(t).drop_last() =~= b);
}

/// Implicit arguments at the end of the second list keep the relation.
pub proof fn lemma_padded_fill(a: Seq<TokenModel>, b: Seq<TokenModel>, n: int)
    requires
        padded(a, b),
    ensures
        padded(a, b + placeholders(n)),
    decreases n,
{
    if n <= 0 {
        assert(b + placeholders(n) =~= b);
    } else {
        lemma_padded_fill(a, b, n - 1);
        let longer = b + placeholders(n);
        assert(longer.drop_last() =~= b + placeholders(n - 1));
        assert(longer.last() == placeholder());
    }
}

/// The relation holds of two lists joined when it holds of their parts.
pub proof fn lemma_padded_add(
    a: Seq<TokenModel>,
    b: Seq<TokenModel>,
    c: Seq<TokenModel>,
    d: Seq<TokenModel>,
)
    requires
        padded(a, b),
        padded(c, d),
    ensures
        padded(a + c, b + d),
    decreases d.len(),
{
    if d.len() == 0 {
        assert(a + c =~= a);
        assert(b + d =~= b);
    } else if c.len() > 0 && c.last() == d.last() && padded(c.drop_last(), d.drop_last()) {
        lemma_padded_add(a, b, c.drop_last(), d.drop_last());
        assert((a + c).drop_last() =~= a + c.drop_last());
        assert((b + d).drop_last() =~= b + d.drop_last());
    } else {
        lemma_padded_add(a, b, c, d.drop_last());
        assert((b + d).drop_last() =~= b + d.drop_last());
    }
}

/// The operators and the other tokens of two lists joined are those of the
/// first list and those of the second.
pub proof fn lemma_parts_add(a: Seq<TokenModel>, b: Seq<TokenModel>)
    ensures
        operators_in(a + b) == operators_in(a).add(operators_in(b)),
        operands_in(a + b) == operands_in(a) + operands_in(b),
        operands_handed_on(a + b) == operands_handed_on(a) + operands_handed_on(b),
    decreases b.len(),
{
    if b.len() == 0 {
        assert(a + b =~= a);
        assert(operators_in(a).add(operators_in(b)) =~= operators_in(a));
        assert(operands_in(a) + operands_in(b) =~= operands_in(a));
        assert(operands_handed_on(a) + operands_handed_on(b) =~= operands_handed_on(a));
    } else {
        lemma_parts_add(a, b.drop_last());
        assert((a + b).drop_last() =~= a + b.drop_last());
        assert((a + b).last() == b.last());
        assert(operators_in(a + b) =~= operators_in(a).add(operators_in(b)));
        assert(operands_in(a + b) =~= operands_in(a) + operands_in(b));
        assert(operands_handed_on(a + b) =~= operands_handed_on(a) + operands_handed_on(b));
    }
}

/// A run of implicit arguments holds no operator.
pub proof fn lemma_parts_of_placeholders(n: int)
    ensures
        operators_in(placeholders(n)) == Multiset::<TokenModel>::empty(),
        operands_in(placeholders(n)) == placeholders(n),
    decreases n,
{
    if n > 0 {
        lemma_parts_of_placeholders(n - 1);
        assert(placeholders(n).drop_last() =~= placeholders(n - 1));
        assert(placeholders(n).last() == placeholder());
        assert(operands_in(placeholders(n)) =~= placeholders(n));
    } else {
        assert(operands_in(placeholders(n)) =~= placeholders(n));
    }
}

/// An operator that moves to the output arrives there once, behind
/// implicit arguments only.
pub proof fn lemma_top_up_keeps(output: Seq<TokenModel>, op: TokenModel, a: Seq<TokenModel>)
    requires
        op is Operator,
        padded(a, operands_in(output)),
    ensures
        match top_up(output, op) {
            Some(out) => operators_in(out) == operators_in(output).insert(op) && padded(
                a,
                operands_in(out),
            ),
            None => true,
        },
{
    match top_up(output, op) {
        Some(out) => {
            let n = needed(output, op);
            let filled = output + placeholders(n);
            lemma_parts_add(output, placeholders(n));
            lemma_parts_of_placeholders(n);
            lemma_padded_fill(a, operands_in(output), n);
            assert(out == filled.push(op));
            assert(out.drop_last() =~= filled);
            assert(operators_in(filled) =~= operators_in(output));
        },
        None => {},
    }
}

/// The operators that leave the stack arrive in the output, each once, and
/// the other tokens of the output stay in their order.
pub proof fn lemma_pop_while_keeps(
    operators: Seq<TokenModel>,
    output: Seq<TokenModel>,
    tok: TokenModel,
    a: Seq<TokenModel>,
)
    requires
        padded(a, operands_in(output)),
    ensures
        match pop_while(operators, output, tok) {
            Some((stack, out)) => operators_in(stack).add(operators_in(out)) == operators_in(
                operators,
            ).add(operators_in(output)) && padded(a, operands_in(out)),
            None => true,
        },
    decreases operators.len(),
{
    if operators.len() == 0 {
    } else if !(operators.last() is Operator) {
        lemma_pop_while_keeps(operators.drop_last(), output, tok, a);
    } else if stays(operators.last(), tok) {
    } else {
        lemma_top_up_keeps(output, operators.last(), a);
        match top_up(output, operators.last()) {
            Some(out) => {
                lemma_pop_while_keeps(operators.drop_last(), out, tok, a);
                match pop_while(operators.drop_last(), out, tok) {
                    Some((stack, last)) => {
                        assert(operators_in(stack).add(operators_in(last)) =~= operators_in(
                            operators,
                        ).add(operators_in(output)));
                    },
                    None => {},
                }
            },
            None => {},
        }
    }
}

/// The operators left on the stack arrive in the output, each once, and the
/// other tokens of the output stay in their order.
pub proof fn lemma_drain_keeps(
    operators: Seq<TokenModel>,
    output: Seq<TokenModel>,
    a: Seq<TokenModel>,
)
    requires
        padded(a, operands_in(output)),
    ensures
        match drain(operators, output) {
            Some(out) => operators_in(out) == operators_in(operators).add(operators_in(output))
                && padded(a, operands_in(out)),
            None => true,
        },
    decreases operators.len(),
{
    if operators.len() == 0 {
        assert(operators_in(operators).add(operators_in(output)) =~= operators_in(output));
    } else if !(operators.last() is Operator) {
        lemma_drain_keeps(operators.drop_last(), output, a);
    } else {
        lemma_top_up_keeps(output, operators.last(), a);
        match top_up(output, operators.last()) {
            Some(out) => {
                lemma_drain_keeps(operators.drop_last(), out, a);
                match drain(operators.drop_last(), out) {
                    Some(last) => {
                        assert(operators_in(last) =~= operators_in(operators).add(
                            operators_in(output),
                        ));
                    },
                    None => {},
                }
            },
            None => {},
        }
    }
}

/// Whether the stack and the output hold the operators of `seen`, each as
/// often as it occurs there, and the output holds the other tokens of
/// `seen` in their order.
pub open spec fn holds_what_was_seen(seen: Seq<TokenModel>, st: ShuntModel) -> bool {
    &&& operators_in(st.operators).add(operators_in(st.output)) == operators_in(seen)
    &&& padded(operands_handed_on(seen), operands_in(st.output))
}

/// One token more keeps what the stack and the output hold.
pub proof fn lemma_step_keeps(seen: Seq<TokenModel>, st: ShuntModel, tok: TokenModel)
    requires
        holds_what_was_seen(seen, st),
        !(tok is Comma),
    ensures
        match shunt_step(st, tok) {
            Some(next) => holds_what_was_seen(seen.push(tok), next),
            None => true,
        },
{
    let longer = seen.push(tok);
    assert(longer.drop_last() =~= seen);
    match shunt_step(st, tok) {
        Some(next) => {
            match tok {
                TokenModel::Operator(_, _) => {
                    lemma_pop_while_keeps(st.operators, st.output, tok, operands_handed_on(seen));
                    let (stack, out) = pop_while(st.operators, st.output, tok)->0;
                    assert(stack.push(tok).drop_last() =~= stack);
                    assert(operators_in(stack.push(tok)).add(operators_in(out)) =~= operators_in(
                        longer,
                    ));
                },
                _ => {
                    assert(next.output.drop_last() =~= st.output);
                    assert(next.output.last() == handed_on(tok));
                    lemma_padded_push(
                        operands_handed_on(seen),
                        operands_in(st.output),
                        handed_on(tok),
                    );
                },
            }
        },
        None => {},
    }
}

/// The pass over an expression keeps what the stack and the output hold.
pub proof fn lemma_run_keeps(ts: Seq<TokenModel>, start: int, i: int, end: int, st: ShuntModel)
    requires
        0 <= start <= i <= end <= ts.len(),
        forall|k: int| start <= k < end ==> !(#[trigger] ts[k] is Comma),
        holds_what_was_seen(ts.subrange(start, i), st),
    ensures
        match shunt_run(ts, i, end, st) {
            Some(last) => holds_what_was_seen(ts.subrange(start, end), last),
            None => true,
        },
    decreases end - i,
{
    if i < end {
        lemma_step_keeps(ts.subrange(start, i), st, ts[i]);
        assert(ts.subrange(start, i).push(ts[i]) =~= ts.subrange(start, i + 1));
        match shunt_step(st, ts[i]) {
            Some(next) => {
                lemma_run_keeps(ts, start, i + 1, end, next);
            },
            None => {},
        }
    }
}

/// The postfix form of an expression holds the operators of the
/// expression, each as often as it occurs there, and its other tokens in
/// their order.
pub proof fn lemma_expr_keeps(ts: Seq<TokenModel>, start: int, end: int)
    requires
        0 <= start <= end <= ts.len(),
        forall|k: int| start <= k < end ==> !(#[trigger] ts[k] is Comma),
    ensures
        match expr_postfix(ts, start, end) {
            Some(out) => operators_in(out) == operators_in(ts.subrange(start, end)) && padded(
                operands_handed_on(ts.subrange(start, end)),
                operands_in(out),
            ),
            None => true,
        },
{
    let first = ShuntModel { operators: Seq::empty(), output: Seq::empty() };
    assert(ts.subrange(start, start) =~= Seq::<TokenModel>::empty());
    assert(operators_in(first.operators).add(operators_in(first.output)) =~= Multiset::<
        TokenModel,
    >::empty());
    lemma_run_keeps(ts, start, start, end, first);
    match shunt_run(ts, start, end, first) {
        Some(st) => {
            lemma_drain_keeps(st.operators, st.output, operands_handed_on(ts.subrange(start, end)));
        },
        None => {},
    }
}

/// Where the next comma stands.
pub proof fn lemma_next_comma(ts: Seq<TokenModel>, start: int)
    requires
        0 <= start <= ts.len(),
    ensures
        start <= next_comma(ts, start) <= ts.len(),
        forall|k: int| start <= k < next_comma(ts, start) ==> !(#[trigger] ts[k] is Comma),
        next_comma(ts, start) < ts.len() ==> ts[next_comma(ts, start)] is Comma,
    decreases ts.len() - start,
{
    if start < ts.len() && !(ts[start] is Comma) {
        lemma_next_comma(ts, start + 1);
    }
}

/// The postfix forms of the expressions from `start` on hold the operators
/// of these tokens, each as often as it occurs there, and their other
/// tokens in their order.
pub proof fn lemma_chunks_keep(ts: Seq<TokenModel>, start: int)
    requires
        0 <= start <= ts.len(),
    ensures
        match chunks_postfix(ts, start) {
            Some(out) => operators_in(out) == operators_in(ts.subrange(start, ts.len() as int))
                && padded(
                operands_handed_on(ts.subrange(start, ts.len() as int)),
                operands_in(out),
            ),
            None => true,
        },
    decreases ts.len() - start,
{
    let end = next_comma(ts, start);
    let len = ts.len() as int;
    lemma_next_comma(ts, start);
    lemma_expr_keeps(ts, start, end);
    match expr_postfix(ts, start, end) {
        Some(out) => {
            if end < len {
                lemma_chunks_keep(ts, end + 1);
                match chunks_postfix(ts, end + 1) {
                    Some(rest) => {
                        let head = ts.subrange(start, end + 1);
                        let tail = ts.subrange(end + 1, len);
                        assert(ts.subrange(start, len) =~= head + tail);
                        assert(head.drop_last() =~= ts.subrange(start, end));
                        assert(head.last() is Comma);
                        lemma_parts_add(head, tail);
                        lemma_parts_add(out, rest);
                        lemma_padded_add(
                            operands_handed_on(head),
                            operands_in(out),
                            operands_handed_on(tail),
                            operands_in(rest),
                        );
                    },
                    None => {},
                }
            }
        },
        None => {},
    }
}

/// The postfix form of a token list holds the operators of the list, each
/// as often as it occurs there and with the same counts, and no other. Its
/// tokens that are no operators are those of the list without the commas,
/// in the same order, each block with its body in postfix form, and
/// between them only implicit arguments were put in.
pub proof fn lemma_postfix_keeps_tokens(ts: Seq<TokenModel>)
    ensures
        match to_postfix_spec(ts) {
            Some(out) => operators_in(out) == operators_in(ts) && padded(
                operands_handed_on(ts),
                operands_in(out),
            ),
            None => true,
        },
{
    lemma_chunks_keep(ts, 0);
    assert(ts.subrange(0, ts.len() as int) =~= ts);
}

} // verus!
