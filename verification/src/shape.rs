//! Where the operator nodes of a tree come from: each has the symbol of an
//! operator token of the list it was built from, and as many operands on
//! each side as that token's own counts say.

use crate::ast::{ast_run, ast_step, count, empty_block, is_sized_tail, sequence_of, to_ast_spec};
use crate::num::decimal;
use crate::tokens::{NodeModel, TokenModel};
use vstd::prelude::*;

verus! {

/// The symbol of an operator with the numbers of its operands.
pub struct Shape {
    pub symbol: Seq<char>,
    pub left: int,
    pub right: int,
}

/// Whether the token is an operator of this shape, or a block that holds
/// one at some depth.
pub open spec fn token_has(t: TokenModel, shape: Shape) -> bool
    decreases t,
{
    match t {
        TokenModel::Operator(symbol, rank) => shape == (Shape {
            symbol,
            left: count(rank.0),
            right: count(rank.1),
        }),
        TokenModel::Block(body, _, _) => exists|i: int|
            0 <= i < body.len() && token_has(#[trigger] body[i], shape),
        _ => false,
    }
}

/// Whether the list holds an operator token of this shape at some depth.
pub open spec fn tokens_have(ts: Seq<TokenModel>, shape: Shape) -> bool {
    exists|i: int| 0 <= i < ts.len() && token_has(#[trigger] ts[i], shape)
}

/// Whether every operator node of the tree has the shape of an operator
/// token of the list.
pub open spec fn node_from(n: NodeModel, ts: Seq<TokenModel>) -> bool
    decreases n,
{
    match n {
        NodeModel::Op(symbol, left, right) => {
            &&& tokens_have(ts, Shape { symbol, left: left.len() as int, right: right.len() as int })
            &&& forall|i: int| 0 <= i < left.len() ==> node_from(#[trigger] left[i], ts)
            &&& forall|i: int| 0 <= i < right.len() ==> node_from(#[trigger] right[i], ts)
        },
        NodeModel::Group(body) => forall|i: int|
            0 <= i < body.len() ==> node_from(#[trigger] body[i], ts),
        NodeModel::Block(body, _) => forall|i: int|
            0 <= i < body.len() ==> node_from(#[trigger] body[i], ts),
        NodeModel::Sequence(entries, block, length) => {
            &&& forall|i: int| 0 <= i < entries.len() ==> node_from(#[trigger] entries[i], ts)
            &&& node_from(*block, ts)
            &&& length matches Some(l) ==> node_from(*l, ts)
        },
        _ => true,
    }
}

/// Whether every operator node of the trees has the shape of an operator
/// token of the list.
pub open spec fn nodes_from(ns: Seq<NodeModel>, ts: Seq<TokenModel>) -> bool {
    forall|i: int| 0 <= i < ns.len() ==> node_from(#[trigger] ns[i], ts)
}

/// Whether the second list holds every shape that the first one holds.
pub open spec fn holds_shapes_of(big: Seq<TokenModel>, small: Seq<TokenModel>) -> bool {
    forall|shape: Shape| #[trigger] tokens_have(small, shape) ==> tokens_have(big, shape)
}

/// A tree whose operator nodes come from one list comes from every list
/// that holds the shapes of that one.
pub proof fn lemma_node_from_wider(n: NodeModel, small: Seq<TokenModel>, big: Seq<TokenModel>)
    requires
        node_from(n, small),
        holds_shapes_of(big, small),
    ensures
        node_from(n, big),
    decreases n,
{
    match n {
        NodeModel::Op(symbol, left, right) => {
            assert forall|i: int| 0 <= i < left.len() implies node_from(#[trigger] left[i], big) by {
                lemma_node_from_wider(left[i], small, big);
            }
            assert forall|i: int| 0 <= i < right.len() implies node_from(
                #[trigger] right[i],
                big,
            ) by {
                lemma_node_from_wider(right[i], small, big);
            }
        },
        NodeModel::Group(body) => {
            assert forall|i: int| 0 <= i < body.len() implies node_from(#[trigger] body[i], big) by {
                lemma_node_from_wider(body[i], small, big);
            }
        },
        NodeModel::Block(body, _) => {
            assert forall|i: int| 0 <= i < body.len() implies node_from(#[trigger] body[i], big) by {
                lemma_node_from_wider(body[i], small, big);
            }
        },
        NodeModel::Sequence(entries, block, length) => {
            assert forall|i: int| 0 <= i < entries.len() implies node_from(
                #[trigger] entries[i],
                big,
            ) by {
                lemma_node_from_wider(entries[i], small, big);
            }
            lemma_node_from_wider(*block, small, big);
            match length {
                Some(l) => {
                    lemma_node_from_wider(*l, small, big);
                },
                None => {},
            }
        },
        _ => {},
    }
}

/// A list holds the shapes of the body of each of its blocks.
pub proof fn lemma_body_shapes(ts: Seq<TokenModel>, i: int)
    requires
        0 <= i < ts.len(),
        ts[i] is Block,
    ensures
        holds_shapes_of(ts, ts[i]->Block_0),
{
    let body = ts[i]->Block_0;
    assert forall|shape: Shape| #[trigger] tokens_have(body, shape) implies tokens_have(
        ts,
        shape,
    ) by {
        let j = choose|j: int| 0 <= j < body.len() && token_has(#[trigger] body[j], shape);
        assert(token_has(body[j], shape));
        assert(token_has(ts[i], shape));
    }
}

/// The sequence node of a body comes from the list that the body comes
/// from.
pub proof fn lemma_sequence_from(body: Seq<NodeModel>, ts: Seq<TokenModel>)
    requires
        nodes_from(body, ts),
    ensures
        node_from(sequence_of(body), ts),
{
    if body.len() > 0 {
        assert(node_from(body.last(), ts));
        assert forall|i: int| 0 <= i < body.drop_last().len() implies node_from(
            #[trigger] body.drop_last()[i],
            ts,
        ) by {
            assert(body.drop_last()[i] == body[i]);
        }
    }
    if body.len() > 0 && is_sized_tail(body.last()) {
        let left = body.last()->Op_1;
        let right = body.last()->Op_2;
        assert(node_from(left[0], ts));
        assert(node_from(right[0], ts));
        assert(node_from(
            NodeModel::Sequence(body.drop_last(), Box::new(left[0]), Some(Box::new(right[0]))),
            ts,
        ));
    } else if body.len() > 0 && body.last() is Block {
        assert(node_from(NodeModel::Sequence(body.drop_last(), Box::new(body.last()), None), ts));
    } else {
        assert(node_from(empty_block(), ts));
        assert(node_from(NodeModel::Number(decimal(body.len())), ts));
        assert(node_from(
            NodeModel::Sequence(
                body,
                Box::new(empty_block()),
                Some(Box::new(NodeModel::Number(decimal(body.len())))),
            ),
            ts,
        ));
    }
}

/// One token more on a stack of trees that come from the list, the token
/// being one of the list, gives trees that come from the list.
pub proof fn lemma_step_from(stack: Seq<NodeModel>, ts: Seq<TokenModel>, i: int)
    requires
        0 <= i < ts.len(),
        nodes_from(stack, ts),
    ensures
        match ast_step(stack, ts[i]) {
            Ok(next) => nodes_from(next, ts),
            Err(_) => true,
        },
    decreases ts, 0nat, 0nat,
{
    match ast_step(stack, ts[i]) {
        Ok(next) => {
            match ts[i] {
                TokenModel::Block(body, c, name) => {
                    lemma_tree_from(body);
                    lemma_body_shapes(ts, i);
                    let nodes = to_ast_spec(body)->Ok_0;
                    assert forall|k: int| 0 <= k < nodes.len() implies node_from(
                        #[trigger] nodes[k],
                        ts,
                    ) by {
                        lemma_node_from_wider(nodes[k], body, ts);
                    }
                    if c == '[' {
                        lemma_sequence_from(nodes, ts);
                    }
                    assert(node_from(next.last(), ts));
                    assert forall|k: int| 0 <= k < next.len() implies node_from(
                        #[trigger] next[k],
                        ts,
                    ) by {
                        if k < stack.len() {
                            assert(next[k] == stack[k]);
                        }
                    }
                },
                TokenModel::Operator(symbol, rank) => {
                    let l = count(rank.0);
                    let r = count(rank.1);
                    let n = stack.len() as int;
                    let left = stack.subrange(n - r - l, n - r);
                    let right = stack.subrange(n - r, n);
                    let shape = Shape { symbol, left: l, right: r };
                    assert(token_has(ts[i], shape));
                    assert(tokens_have(ts, shape));
                    assert forall|k: int| 0 <= k < left.len() implies node_from(
                        #[trigger] left[k],
                        ts,
                    ) by {
                        assert(left[k] == stack[n - r - l + k]);
                    }
                    assert forall|k: int| 0 <= k < right.len() implies node_from(
                        #[trigger] right[k],
                        ts,
                    ) by {
                        assert(right[k] == stack[n - r + k]);
                    }
                    assert(node_from(NodeModel::Op(symbol, left, right), ts));
                    assert forall|k: int| 0 <= k < next.len() implies node_from(
                        #[trigger] next[k],
                        ts,
                    ) by {
                        if k < n - r - l {
                            assert(next[k] == stack[k]);
                        }
                    }
                },
                _ => {
                    assert forall|k: int| 0 <= k < next.len() implies node_from(
                        #[trigger] next[k],
                        ts,
                    ) by {
                        if k < stack.len() {
                            assert(next[k] == stack[k]);
                        }
                    }
                },
            }
        },
        Err(_) => {},
    }
}

/// The reduction from the `i`-th token on, begun on trees that come from
/// the list, gives trees that come from the list.
pub proof fn lemma_run_from(ts: Seq<TokenModel>, i: int, stack: Seq<NodeModel>)
    requires
        0 <= i,
        nodes_from(stack, ts),
    ensures
        match ast_run(ts, i, stack) {
            Ok(nodes) => nodes_from(nodes, ts),
            Err(_) => true,
        },
    decreases ts, 1nat, ts.len() - i,
{
    if i < ts.len() {
        lemma_step_from(stack, ts, i);
        match ast_step(stack, ts[i]) {
            Ok(next) => {
                lemma_run_from(ts, i + 1, next);
            },
            Err(_) => {},
        }
    }
}

/// Every operator node of the trees that a token list reduces to, at any
/// depth, has the symbol of an operator token of the list and as many
/// operands on each side as that token's own counts say.
pub proof fn lemma_tree_from(ts: Seq<TokenModel>)
    ensures
        match to_ast_spec(ts) {
            Ok(nodes) => nodes_from(nodes, ts),
            Err(_) => true,
        },
    decreases ts, 2nat, 0nat,
{
    lemma_run_from(ts, 0, Seq::empty());
}

} // verus!
