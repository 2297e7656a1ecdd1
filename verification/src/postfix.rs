//! The postfix converter: a Shunting-Yard pass over each comma-separated
//! expression, which also puts in the implicit argument `_` where an operator
//! would otherwise find too few operands.

use crate::arrange::{
    lemma_postfix_keeps_tokens, operands_handed_on, operands_in, operators_in, padded,
};
use crate::lexer::{lemma_tokens_drop_last, placeholders, push_placeholders, push_token};
use crate::ops::{lookup, op_info};
use crate::text::chars_of;
use crate::tokens::{
    clone_name, lemma_block_model, token_model, token_sound, tokens_model, tokens_sound, Token,
    TokenModel,
};
use vstd::prelude::*;

verus! {

/// The number of operands an operator token takes; other tokens take none.
pub open spec fn arity(t: TokenModel) -> int {
    match t {
        TokenModel::Operator(_, rank) => rank.0 + rank.1,
        _ => 0,
    }
}

/// `start` plus the operand counts of all operators among the tokens.
pub open spec fn sum_rank_spec(start: int, rest: Seq<TokenModel>) -> int
    decreases rest.len(),
{
    if rest.len() == 0 {
        start
    } else {
        sum_rank_spec(start, rest.drop_last()) + arity(rest.last())
    }
}

/// How many implicit arguments the output lacks before `op` can follow it:
/// the operands of `op` and of every operator already in the output, less
/// the tokens that are there.
pub open spec fn needed(output: Seq<TokenModel>, op: TokenModel) -> int {
    sum_rank_spec(arity(op), output) - output.len()
}

/// The output with `op` moved onto it, behind the implicit arguments that it
/// lacks. There is no result when their number does not fit the machine.
pub open spec fn top_up(output: Seq<TokenModel>, op: TokenModel) -> Option<Seq<TokenModel>> {
    if needed(output, op) > usize::MAX {
        None
    } else {
        Some((output + placeholders(needed(output, op))).push(op))
    }
}

/// Whether the operator `top` stays on the stack when the operator `tok`
/// arrives: it does if `tok` binds more tightly and `top` takes arguments on
/// its right, or if `tok` takes none on its left.
pub open spec fn stays(top: TokenModel, tok: TokenModel) -> bool {
    match (top, tok) {
        (TokenModel::Operator(left, left_rank), TokenModel::Operator(right, rank)) => {
            op_info(left) is None || op_info(right) is None || (op_info(right)->0.precedence
                > op_info(left)->0.precedence && left_rank.1 > 0) || rank.0 == 0
        },
        _ => false,
    }
}

/// The stack and the output after the operators that do not stay have moved
/// from the stack to the output.
pub open spec fn pop_while(
    operators: Seq<TokenModel>,
    output: Seq<TokenModel>,
    tok: TokenModel,
) -> Option<(Seq<TokenModel>, Seq<TokenModel>)>
    decreases operators.len(),
{
    if operators.len() == 0 {
        Some((operators, output))
    } else if !(operators.last() is Operator) {
        pop_while(operators.drop_last(), output, tok)
    } else if stays(operators.last(), tok) {
        Some((operators, output))
    } else {
        match top_up(output, operators.last()) {
            Some(out) => pop_while(operators.drop_last(), out, tok),
            None => None,
        }
    }
}

/// The output after every operator left on the stack has moved to it.
pub open spec fn drain(operators: Seq<TokenModel>, output: Seq<TokenModel>) -> Option<
    Seq<TokenModel>,
>
    decreases operators.len(),
{
    if operators.len() == 0 {
        Some(output)
    } else if !(operators.last() is Operator) {
        drain(operators.drop_last(), output)
    } else {
        match top_up(output, operators.last()) {
            Some(out) => drain(operators.drop_last(), out),
            None => None,
        }
    }
}

/// The operator stack and the output of the pass.
pub struct ShuntModel {
    pub operators: Seq<TokenModel>,
    pub output: Seq<TokenModel>,
}

/// One token of an expression: an operator goes to the stack once the
/// operators that do not stay have left it, a block goes to the output with
/// its body converted, anything else goes to the output as it is.
pub open spec fn shunt_step(st: ShuntModel, tok: TokenModel) -> Option<ShuntModel>
    decreases tok, 0nat, 0nat,
{
    match tok {
        TokenModel::Operator(_, _) => match pop_while(st.operators, st.output, tok) {
            Some((ops, out)) => Some(ShuntModel { operators: ops.push(tok), output: out }),
            None => None,
        },
        TokenModel::Block(body, c, name) => match to_postfix_spec(body) {
            Some(converted) => Some(
                ShuntModel { output: st.output.push(TokenModel::Block(converted, c, name)), ..st },
            ),
            None => None,
        },
        _ => Some(ShuntModel { output: st.output.push(tok), ..st }),
    }
}

/// The pass over the tokens from index `i` up to `end`.
pub open spec fn shunt_run(ts: Seq<TokenModel>, i: int, end: int, st: ShuntModel) -> Option<
    ShuntModel,
>
    decreases ts, 1nat, end - i,
{
    if i < 0 || i >= end || i >= ts.len() {
        Some(st)
    } else {
        match shunt_step(st, ts[i]) {
            Some(next) => shunt_run(ts, i + 1, end, next),
            None => None,
        }
    }
}

/// The postfix form of the expression that the tokens from `start` up to
/// `end` make.
pub open spec fn expr_postfix(ts: Seq<TokenModel>, start: int, end: int) -> Option<Seq<TokenModel>>
    decreases ts, 2nat, 0nat,
{
    match shunt_run(
        ts,
        start,
        end,
        ShuntModel { operators: Seq::empty(), output: Seq::empty() },
    ) {
        Some(st) => drain(st.operators, st.output),
        None => None,
    }
}

/// The index of the first comma at or behind `start`, or the number of
/// tokens when there is none.
pub open spec fn next_comma(ts: Seq<TokenModel>, start: int) -> int
    decreases ts.len() - start,
{
    if start < 0 || start >= ts.len() {
        ts.len() as int
    } else if ts[start] is Comma {
        start
    } else {
        next_comma(ts, start + 1)
    }
}

/// The postfix forms of the expressions from `start` on, one after the
/// other.
pub open spec fn chunks_postfix(ts: Seq<TokenModel>, start: int) -> Option<Seq<TokenModel>>
    decreases ts, 3nat, ts.len() - start,
{
    let end = next_comma(ts, start);
    match expr_postfix(ts, start, end) {
        Some(out) => if end >= ts.len() || end < start {
            Some(out)
        } else {
            match chunks_postfix(ts, end + 1) {
                Some(rest) => Some(out + rest),
                None => None,
            }
        },
        None => None,
    }
}

/// The postfix form of a token list: the list is split at every comma, each
/// expression is converted, and the results are joined. There is no result
/// when some operator would need more implicit arguments than fit the
/// machine.
pub open spec fn to_postfix_spec(ts: Seq<TokenModel>) -> Option<Seq<TokenModel>>
    decreases ts, 4nat, 0nat,
{
    chunks_postfix(ts, 0)
}

/// How many values a reduction of the tokens leaves: each token makes one,
/// and an operator takes its operands first.
pub open spec fn depth(ts: Seq<TokenModel>) -> int {
    ts.len() - sum_rank_spec(0, ts)
}

/// Whether the tokens reduce to nodes: every operator finds as many values
/// before it as it takes, no comma is left, and every block was opened by a
/// bracket and holds tokens that reduce.
pub open spec fn reducible(ts: Seq<TokenModel>) -> bool
    decreases ts,
{
    forall|i: int|
        0 <= i < ts.len() ==> match #[trigger] ts[i] {
            TokenModel::Operator(_, rank) => rank.0 >= 0 && rank.1 >= 0 && depth(ts.take(i))
                >= rank.0 + rank.1,
            TokenModel::Block(body, c, _) => (c == '{' || c == '(' || c == '[') && reducible(body),
            TokenModel::Comma => false,
            _ => true,
        }
}

/// What holds of each token of a run that reduces, and how many values
/// the run leaves up to and with that token.
pub proof fn lemma_reducible_at(ts: Seq<TokenModel>, i: int)
    requires
        reducible(ts),
        0 <= i < ts.len(),
    ensures
        match ts[i] {
            TokenModel::Operator(_, rank) => rank.0 >= 0 && rank.1 >= 0 && depth(ts.take(i))
                >= rank.0 + rank.1,
            TokenModel::Block(body, c, _) => (c == '{' || c == '(' || c == '[') && reducible(body),
            TokenModel::Comma => false,
            _ => true,
        },
        depth(ts.take(i + 1)) == depth(ts.take(i)) + 1 - arity(ts[i]),
{
    assert(ts.take(i + 1).drop_last() =~= ts.take(i));
    assert(ts.take(i + 1).last() == ts[i]);
}

/// The operand counts of two runs of tokens add up.
pub proof fn lemma_sum_rank_add(start: int, a: Seq<TokenModel>, b: Seq<TokenModel>)
    ensures
        sum_rank_spec(start, a + b) == sum_rank_spec(start, a) + sum_rank_spec(0, b),
    decreases b.len(),
{
    if b.len() == 0 {
        assert(a + b =~= a);
    } else {
        assert((a + b).drop_last() =~= a + b.drop_last());
        lemma_sum_rank_add(start, a, b.drop_last());
    }
}

/// The operand counts behind a start are the start plus the counts behind
/// zero.
pub proof fn lemma_sum_rank_shift(start: int, ts: Seq<TokenModel>)
    ensures
        sum_rank_spec(start, ts) == start + sum_rank_spec(0, ts),
    decreases ts.len(),
{
    if ts.len() > 0 {
        lemma_sum_rank_shift(start, ts.drop_last());
    }
}

/// Implicit arguments take no operands, so each adds one value.
pub proof fn lemma_placeholders_depth(n: int)
    ensures
        sum_rank_spec(0, placeholders(n)) == 0,
    decreases n,
{
    if n > 0 {
        assert(placeholders(n).drop_last() =~= placeholders(n - 1));
        lemma_placeholders_depth(n - 1);
    }
}

/// Tokens that reduce leave no fewer values than none.
pub proof fn lemma_reducible_depth(ts: Seq<TokenModel>)
    requires
        reducible(ts),
    ensures
        depth(ts) >= 0,
    decreases ts.len(),
{
    if ts.len() > 0 {
        let front = ts.drop_last();
        assert forall|i: int| 0 <= i < front.len() implies match #[trigger] front[i] {
            TokenModel::Operator(_, rank) => rank.0 >= 0 && rank.1 >= 0 && depth(front.take(i))
                >= rank.0 + rank.1,
            TokenModel::Block(body, c, _) => (c == '{' || c == '(' || c == '[') && reducible(body),
            TokenModel::Comma => false,
            _ => true,
        } by {
            assert(front[i] == ts[i]);
            assert(front.take(i) =~= ts.take(i));
        }
        lemma_reducible_depth(front);
        assert(ts.take(ts.len() - 1) =~= front);
        let last = ts[ts.len() - 1];
    }
}

/// A run that reduces still reduces with one more token behind it that is
/// no comma, finds its operands if it is an operator, and holds tokens that
/// reduce if it is a block.
pub proof fn lemma_reducible_push(ts: Seq<TokenModel>, t: TokenModel)
    requires
        reducible(ts),
        match t {
            TokenModel::Operator(_, rank) => rank.0 >= 0 && rank.1 >= 0 && depth(ts) >= rank.0
                + rank.1,
            TokenModel::Block(body, c, _) => (c == '{' || c == '(' || c == '[') && reducible(body),
            TokenModel::Comma => false,
            _ => true,
        },
    ensures
        reducible(ts.push(t)),
{
    let all = ts.push(t);
    assert forall|i: int| 0 <= i < all.len() implies match #[trigger] all[i] {
        TokenModel::Operator(_, rank) => rank.0 >= 0 && rank.1 >= 0 && depth(all.take(i))
            >= rank.0 + rank.1,
        TokenModel::Block(body, c, _) => (c == '{' || c == '(' || c == '[') && reducible(body),
        TokenModel::Comma => false,
        _ => true,
    } by {
        if i < ts.len() {
            assert(all[i] == ts[i]);
            assert(all.take(i) =~= ts.take(i));
        } else {
            assert(all.take(i) =~= ts);
        }
    }
}

/// Two runs that reduce still reduce one behind the other.
pub proof fn lemma_reducible_add(a: Seq<TokenModel>, b: Seq<TokenModel>)
    requires
        reducible(a),
        reducible(b),
    ensures
        reducible(a + b),
{
    let all = a + b;
    lemma_reducible_depth(a);
    assert forall|i: int| 0 <= i < all.len() implies match #[trigger] all[i] {
        TokenModel::Operator(_, rank) => rank.0 >= 0 && rank.1 >= 0 && depth(all.take(i))
            >= rank.0 + rank.1,
        TokenModel::Block(body, c, _) => (c == '{' || c == '(' || c == '[') && reducible(body),
        TokenModel::Comma => false,
        _ => true,
    } by {
        if i < a.len() {
            assert(all[i] == a[i]);
            assert(all.take(i) =~= a.take(i));
        } else {
            assert(all[i] == b[i - a.len()]);
            assert(all.take(i) =~= a + b.take(i - a.len()));
            lemma_sum_rank_add(0, a, b.take(i - a.len()));
        }
    }
}

/// A run that reduces still reduces with implicit arguments behind it.
pub proof fn lemma_reducible_placeholders(ts: Seq<TokenModel>, n: int)
    requires
        reducible(ts),
    ensures
        reducible(ts + placeholders(n)),
        depth(ts + placeholders(n)) == depth(ts) + if n > 0 {
            n
        } else {
            0
        },
{
    assert(reducible(placeholders(n)));
    lemma_reducible_add(ts, placeholders(n));
    lemma_sum_rank_add(0, ts, placeholders(n));
    lemma_placeholders_depth(n);
}

/// The models of two runs joined are the models joined.
proof fn lemma_tokens_add(a: Seq<Token>, b: Seq<Token>)
    ensures
        tokens_model(a + b) == tokens_model(a) + tokens_model(b),
{
    assert(tokens_model(a + b) =~= tokens_model(a) + tokens_model(b));
}

/// Adds to `start` the operand counts of all operators among the tokens.
pub fn sum_rank(start: i128, rest: &[Token]) -> (r: i128)
    requires
        -0x4000_0000_0000_0000_0000_0000_0000_0000 <= start
            <= 0x4000_0000_0000_0000_0000_0000_0000_0000,
    ensures
        r == sum_rank_spec(start as int, tokens_model(rest@)),
        start - rest@.len() * 0x1_0000_0000 <= r <= start + rest@.len() * 0x1_0000_0000,
{
    let mut acc: i128 = start;
    let mut i: usize = 0;
    let ghost model = tokens_model(rest@);
    assert(model.take(0) =~= Seq::<TokenModel>::empty());
    while i < rest.len()
        invariant
            i <= rest.len(),
            model == tokens_model(rest@),
            acc == sum_rank_spec(start as int, model.take(i as int)),
            start - i * 0x1_0000_0000 <= acc <= start + i * 0x1_0000_0000,
            -0x4000_0000_0000_0000_0000_0000_0000_0000 <= start
                <= 0x4000_0000_0000_0000_0000_0000_0000_0000,
        decreases rest.len() - i,
    {
        proof {
            assert(model.take(i + 1).drop_last() =~= model.take(i as int));
            assert(model.take(i + 1).last() == token_model(rest@[i as int]));
        }
        match &rest[i] {
            Token::Operator(_, rank) => {
                acc = acc + rank.0 as i128 + rank.1 as i128;
            },
            _ => {},
        }
        i += 1;
    }
    assert(model.take(rest.len() as int) =~= model);
    acc
}

/// Moves `op` onto the output behind the implicit arguments it lacks.
fn move_operator(output: &mut Vec<Token>, op: Token) -> (ok: bool)
    ensures
        match top_up(tokens_model(old(output)@), token_model(op)) {
            Some(out) => ok && tokens_model(final(output)@) == out,
            None => !ok,
        },
        tokens_sound(tokens_model(old(output)@)) && token_sound(token_model(op)) && ok
            ==> tokens_sound(tokens_model(final(output)@)),
        reducible(tokens_model(old(output)@)) && token_sound(token_model(op)) && token_model(
            op,
        ) is Operator && ok ==> reducible(tokens_model(final(output)@)),
{
    proof {
        if reducible(tokens_model(output@)) && token_sound(token_model(op)) && token_model(
            op,
        ) is Operator {
            let out = tokens_model(output@);
            let n = needed(out, token_model(op));
            crate::ops::lemma_op_info_bounds(token_model(op)->Operator_0);
            lemma_reducible_placeholders(out, n);
            lemma_sum_rank_add(0, Seq::empty(), out);
            assert(Seq::<TokenModel>::empty() + out =~= out);
            lemma_sum_rank_shift(arity(token_model(op)), out);
            lemma_reducible_push(out + placeholders(n), token_model(op));
        }
    }
    let a: i128 = match &op {
        Token::Operator(_, rank) => rank.0 as i128 + rank.1 as i128,
        _ => 0,
    };
    let total = sum_rank(a, output.as_slice());
    let need: i128 = total - output.len() as i128;
    if need > usize::MAX as i128 {
        return false;
    }
    if need > 0 {
        push_placeholders(output, need as usize);
    } else {
        assert(tokens_model(output@) + placeholders(need as int) =~= tokens_model(output@));
    }
    push_token(output, op);
    true
}

fn is_operator_token(t: &Token) -> (r: bool)
    ensures
        r == (token_model(*t) is Operator),
{
    match t {
        Token::Operator(_, _) => true,
        _ => false,
    }
}

fn stays_on_stack(top: &Token, tok: &Token) -> (r: bool)
    ensures
        r == stays(token_model(*top), token_model(*tok)),
{
    match top {
        Token::Operator(left, left_rank) => match tok {
            Token::Operator(right, rank) => {
                let left_info = lookup(&chars_of(left.as_str()));
                let right_info = lookup(&chars_of(right.as_str()));
                match (left_info, right_info) {
                    (Some(l), Some(r)) => (r.precedence > l.precedence && left_rank.1 > 0)
                        || rank.0 == 0,
                    _ => true,
                }
            },
            _ => false,
        },
        _ => false,
    }
}

fn pop_operators(operators: &mut Vec<Token>, output: &mut Vec<Token>, tok: &Token) -> (ok: bool)
    ensures
        match pop_while(
            tokens_model(old(operators)@),
            tokens_model(old(output)@),
            token_model(*tok),
        ) {
            Some((ops, out)) => ok && tokens_model(final(operators)@) == ops && tokens_model(
                final(output)@,
            ) == out,
            None => !ok,
        },
        tokens_sound(tokens_model(old(operators)@)) && tokens_sound(tokens_model(old(output)@))
            && ok ==> tokens_sound(tokens_model(final(operators)@)) && tokens_sound(
            tokens_model(final(output)@),
        ),
        tokens_sound(tokens_model(old(operators)@)) && reducible(tokens_model(old(output)@))
            && ok ==> reducible(tokens_model(final(output)@)),
{
    loop
        invariant
            tokens_sound(tokens_model(old(operators)@)) ==> tokens_sound(
                tokens_model(operators@),
            ),
            tokens_sound(tokens_model(old(operators)@)) && reducible(tokens_model(old(output)@))
                ==> reducible(tokens_model(output@)),
            pop_while(
                tokens_model(old(operators)@),
                tokens_model(old(output)@),
                token_model(*tok),
            ) == pop_while(tokens_model(operators@), tokens_model(output@), token_model(*tok)),
            tokens_sound(tokens_model(old(operators)@)) && tokens_sound(
                tokens_model(old(output)@),
            ) ==> tokens_sound(tokens_model(operators@)) && tokens_sound(tokens_model(output@)),
        decreases operators.len(),
    {
        let n = operators.len();
        if n == 0 {
            return true;
        }
        proof {
            lemma_tokens_drop_last(operators@);
        }
        if !is_operator_token(&operators[n - 1]) {
            operators.pop();
            continue ;
        }
        if stays_on_stack(&operators[n - 1], tok) {
            return true;
        }
        let op = operators.pop();
        match op {
            Some(op) => {
                if !move_operator(output, op) {
                    return false;
                }
            },
            None => {},
        }
    }
}

fn drain_operators(operators: &mut Vec<Token>, output: &mut Vec<Token>) -> (ok: bool)
    ensures
        match drain(tokens_model(old(operators)@), tokens_model(old(output)@)) {
            Some(out) => ok && tokens_model(final(output)@) == out,
            None => !ok,
        },
        tokens_sound(tokens_model(old(operators)@)) && tokens_sound(tokens_model(old(output)@))
            && ok ==> tokens_sound(tokens_model(final(output)@)),
        tokens_sound(tokens_model(old(operators)@)) && reducible(tokens_model(old(output)@))
            && ok ==> reducible(tokens_model(final(output)@)),
{
    loop
        invariant
            tokens_sound(tokens_model(old(operators)@)) ==> tokens_sound(
                tokens_model(operators@),
            ),
            tokens_sound(tokens_model(old(operators)@)) && reducible(tokens_model(old(output)@))
                ==> reducible(tokens_model(output@)),
            drain(tokens_model(old(operators)@), tokens_model(old(output)@)) == drain(
                tokens_model(operators@),
                tokens_model(output@),
            ),
            tokens_sound(tokens_model(old(operators)@)) && tokens_sound(
                tokens_model(old(output)@),
            ) ==> tokens_sound(tokens_model(operators@)) && tokens_sound(tokens_model(output@)),
        decreases operators.len(),
    {
        if operators.len() == 0 {
            return true;
        }
        proof {
            lemma_tokens_drop_last(operators@);
        }
        let op = operators.pop();
        match op {
            Some(op) => {
                if is_operator_token(&op) {
                    if !move_operator(output, op) {
                        return false;
                    }
                }
            },
            None => {},
        }
    }
}

/// Converts the expression that the tokens from `start` up to `end` make,
/// by the Shunting-Yard algorithm.
fn expr_to_postfix(tokens: &[Token], start: usize, end: usize) -> (r: Option<Vec<Token>>)
    requires
        start <= end <= tokens@.len(),
    ensures
        match r {
            Some(out) => expr_postfix(tokens_model(tokens@), start as int, end as int) == Some(
                tokens_model(out@),
            ),
            None => expr_postfix(tokens_model(tokens@), start as int, end as int) is None,
        },
        tokens_sound(tokens_model(tokens@)) && r is Some ==> tokens_sound(tokens_model(r->0@)),
        tokens_sound(tokens_model(tokens@)) && r is Some && (forall|i: int|
            start <= i < end ==> !(#[trigger] tokens_model(tokens@)[i] is Comma)) ==> reducible(
            tokens_model(r->0@),
        ),
    decreases tokens@, 2nat, 0nat,
{
    let mut operators: Vec<Token> = Vec::new();
    let mut output: Vec<Token> = Vec::new();
    let ghost model = tokens_model(tokens@);
    let mut i: usize = start;
    assert(tokens_model(operators@) =~= Seq::<TokenModel>::empty());
    assert(tokens_model(output@) =~= Seq::<TokenModel>::empty());
    while i < end
        invariant
            start <= i <= end <= tokens@.len(),
            model == tokens_model(tokens@),
            shunt_run(
                model,
                start as int,
                end as int,
                ShuntModel { operators: Seq::empty(), output: Seq::empty() },
            ) == shunt_run(
                model,
                i as int,
                end as int,
                ShuntModel {
                    operators: tokens_model(operators@),
                    output: tokens_model(output@),
                },
            ),
            tokens_sound(model) ==> tokens_sound(tokens_model(operators@)) && tokens_sound(
                tokens_model(output@),
            ),
            tokens_sound(model) && (forall|k: int|
                start <= k < end ==> !(#[trigger] model[k] is Comma)) ==> reducible(
                tokens_model(output@),
            ),
        decreases end - i,
    {
        let tok = &tokens[i];
        proof {
            if reducible(tokens_model(output@)) && tokens_sound(model) && !(model[i as int]
                is Comma) && !(model[i as int] is Operator) && !(model[i as int] is Block) {
                lemma_reducible_push(tokens_model(output@), model[i as int]);
            }
        }
        let ghost st = ShuntModel {
            operators: tokens_model(operators@),
            output: tokens_model(output@),
        };
        assert(model[i as int] == token_model(tokens@[i as int]));
        assert(tokens_sound(model) ==> token_sound(model[i as int]));
        assert(shunt_run(model, i as int, end as int, st) == match shunt_step(st, model[i as int]) {
            Some(next) => shunt_run(model, i + 1, end as int, next),
            None => None,
        });
        match tok {
            Token::Operator(_, _) => {
                if !pop_operators(&mut operators, &mut output, tok) {
                    assert(shunt_step(st, model[i as int]) is None);
                    return None;
                }
                push_token(&mut operators, tok.clone());
                assert(shunt_step(st, model[i as int]) == Some(
                    ShuntModel {
                        operators: tokens_model(operators@),
                        output: tokens_model(output@),
                    },
                ));
            },
            Token::Block(body, c, name) => {
                proof {
                    lemma_block_model(*body, *c, *name);
                }
                assert(tokens_sound(model) ==> tokens_sound(tokens_model(body@)));
                match to_postfix(body.as_slice()) {
                    Some(converted) => {
                        let name2 = clone_name(name);
                        proof {
                            lemma_block_model(converted, *c, name2);
                        }
                        let t = Token::Block(converted, *c, name2);
                        assert(tokens_sound(model) ==> token_sound(token_model(t)));
                        proof {
                            if reducible(tokens_model(output@)) && tokens_sound(model) {
                                lemma_reducible_push(tokens_model(output@), token_model(t));
                            }
                        }
                        push_token(&mut output, t);
                        assert(shunt_step(st, model[i as int]) == Some(
                            ShuntModel {
                                operators: tokens_model(operators@),
                                output: tokens_model(output@),
                            },
                        ));
                    },
                    None => {
                        assert(shunt_step(st, model[i as int]) is None);
                        return None;
                    },
                }
            },
            _ => {
                push_token(&mut output, tok.clone());
                assert(shunt_step(st, model[i as int]) == Some(
                    ShuntModel {
                        operators: tokens_model(operators@),
                        output: tokens_model(output@),
                    },
                ));
            },
        }
        i += 1;
    }
    if drain_operators(&mut operators, &mut output) {
        Some(output)
    } else {
        None
    }
}

fn find_comma(tokens: &[Token], start: usize) -> (end: usize)
    requires
        start <= tokens@.len(),
    ensures
        end == next_comma(tokens_model(tokens@), start as int),
        start <= end <= tokens@.len(),
        forall|i: int| start <= i < end ==> !(#[trigger] tokens_model(tokens@)[i] is Comma),
{
    let mut i: usize = start;
    while i < tokens.len()
        invariant
            start <= i <= tokens@.len(),
            forall|k: int| start <= k < i ==> !(#[trigger] tokens_model(tokens@)[k] is Comma),
            next_comma(tokens_model(tokens@), start as int) == next_comma(
                tokens_model(tokens@),
                i as int,
            ),
        decreases tokens.len() - i,
    {
        match &tokens[i] {
            Token::Comma => {
                return i;
            },
            _ => {},
        }
        i += 1;
    }
    i
}

/// Converts a token list to postfix order, expression by expression. The
/// result is `None` only when an operator would need more implicit arguments
/// than fit the machine. The result holds the operators of the list, each as
/// often as it occurs there, and the other tokens of the list but the commas
/// in their order, with implicit arguments put in.
pub fn to_postfix(tokens: &[Token]) -> (r: Option<Vec<Token>>)
    ensures
        match r {
            Some(out) => to_postfix_spec(tokens_model(tokens@)) == Some(tokens_model(out@)),
            None => to_postfix_spec(tokens_model(tokens@)) is None,
        },
        tokens_sound(tokens_model(tokens@)) && r is Some ==> tokens_sound(tokens_model(r->0@)),
        tokens_sound(tokens_model(tokens@)) && r is Some ==> reducible(tokens_model(r->0@)),
        r is Some ==> operators_in(tokens_model(r->0@)) == operators_in(tokens_model(tokens@)),
        r is Some ==> padded(
            operands_handed_on(tokens_model(tokens@)),
            operands_in(tokens_model(r->0@)),
        ),
    decreases tokens@, 4nat, 0nat,
{
    let mut result: Vec<Token> = Vec::new();
    let mut start: usize = 0;
    let ghost model = tokens_model(tokens@);
    assert(tokens_model(result@) =~= Seq::<TokenModel>::empty());
    loop
        invariant
            start <= tokens@.len(),
            model == tokens_model(tokens@),
            to_postfix_spec(model) == match chunks_postfix(model, start as int) {
                Some(rest) => Some(tokens_model(result@) + rest),
                None => None,
            },
            tokens_sound(model) ==> tokens_sound(tokens_model(result@)),
            tokens_sound(model) ==> reducible(tokens_model(result@)),
        decreases tokens@.len() - start,
    {
        let end = find_comma(tokens, start);
        match expr_to_postfix(tokens, start, end) {
            Some(mut out) => {
                proof {
                    lemma_tokens_add(result@, out@);
                    if tokens_sound(model) {
                        lemma_reducible_add(tokens_model(result@), tokens_model(out@));
                    }
                }
                let ghost before = tokens_model(result@);
                let ghost chunk = tokens_model(out@);
                result.append(&mut out);
                if end >= tokens.len() {
                    proof {
                        lemma_postfix_keeps_tokens(model);
                    }
                    return Some(result);
                }
                proof {
                    match chunks_postfix(model, end + 1) {
                        Some(rest) => {
                            assert((before + chunk) + rest =~= before + (chunk + rest));
                        },
                        None => {},
                    }
                }
                start = end + 1;
            },
            None => {
                return None;
            },
        }
    }
}

} // verus!
