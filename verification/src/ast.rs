//! The tree builder: a stack reduction of the postfix token list.

use crate::num::{decimal, num_of_usize};
use crate::ops::op_info;
use crate::postfix::{depth, lemma_reducible_at, reducible};
use crate::shape::{lemma_tree_from, nodes_from};
use crate::text::chars_of;
use crate::tokens::{
    clone_name, lemma_block_model, lemma_node_model, lemma_nodes_push, node_model, nodes_model,
    token_model, token_sound, tokens_model, tokens_sound, Node, NodeModel, Token, TokenModel,
};
use vstd::prelude::*;

verus! {

/// Why a token list is no postfix form of a program.
#[derive(Clone, Copy, PartialEq, Eq, Structural, Debug)]
pub enum AstError {
    /// An operator finds fewer operands before it than it takes.
    MissingOperand,
    /// A comma, which the postfix converter never leaves behind.
    UnexpectedComma,
    /// A block opened by a character other than `{`, `(` or `[`.
    UnknownBracket(char),
}

/// The block without statements, which generates nothing.
pub open spec fn empty_block() -> NodeModel {
    NodeModel::Block(Seq::empty(), None)
}

/// Whether the node is the range operator `->` applied to a block on its
/// left and something on its right.
pub open spec fn is_sized_tail(n: NodeModel) -> bool {
    n matches NodeModel::Op(symbol, left, right) && symbol == seq!['-', '>'] && left.len() > 0
        && left[0] is Block && right.len() > 0
}

/// The sequence node of a `[ ... ]` body. If the body ends in `block ->
/// size`, the block generates and the size is the length. If it ends in a
/// block, the block generates without end. Otherwise the body is all there
/// is, and its length is the number of its entries.
pub open spec fn sequence_of(body: Seq<NodeModel>) -> NodeModel {
    if body.len() > 0 && is_sized_tail(body.last()) {
        NodeModel::Sequence(
            body.drop_last(),
            Box::new(body.last()->Op_1[0]),
            Some(Box::new(body.last()->Op_2[0])),
        )
    } else if body.len() > 0 && body.last() is Block {
        NodeModel::Sequence(body.drop_last(), Box::new(body.last()), None)
    } else {
        NodeModel::Sequence(
            body,
            Box::new(empty_block()),
            Some(Box::new(NodeModel::Number(decimal(body.len())))),
        )
    }
}

/// An argument count as a length: a negative count is none.
pub open spec fn count(n: i32) -> int {
    if n > 0 {
        n as int
    } else {
        0
    }
}

/// The node stack after one postfix token. A value is pushed, a block is
/// pushed with its body built, and an operator takes its right operands and
/// then its left operands off the stack and is pushed with them.
pub open spec fn ast_step(stack: Seq<NodeModel>, tok: TokenModel) -> Result<Seq<NodeModel>, AstError>
    decreases tok, 0nat, 0nat,
{
    match tok {
        TokenModel::String(s) => Ok(stack.push(NodeModel::String(s))),
        TokenModel::CmpString(s, c) => Ok(stack.push(NodeModel::CmpString(s, c))),
        TokenModel::Number(n) => Ok(stack.push(NodeModel::Number(n))),
        TokenModel::Variable(s) => Ok(stack.push(NodeModel::Variable(s))),
        TokenModel::Block(body, c, name) => {
            if c != '{' && c != '(' && c != '[' {
                Err(AstError::UnknownBracket(c))
            } else {
                match to_ast_spec(body) {
                    Ok(nodes) => Ok(
                        stack.push(
                            if c == '{' {
                                NodeModel::Block(nodes, name)
                            } else if c == '(' {
                                NodeModel::Group(nodes)
                            } else {
                                sequence_of(nodes)
                            },
                        ),
                    ),
                    Err(e) => Err(e),
                }
            }
        },
        TokenModel::Operator(symbol, rank) => {
            let l = count(rank.0);
            let r = count(rank.1);
            let n = stack.len();
            if n < l + r {
                Err(AstError::MissingOperand)
            } else {
                Ok(
                    stack.take(n - r - l).push(
                        NodeModel::Op(
                            symbol,
                            stack.subrange(n - r - l, n - r),
                            stack.subrange(n - r, n as int),
                        ),
                    ),
                )
            }
        },
        TokenModel::Comma => Err(AstError::UnexpectedComma),
    }
}

/// An operator token takes as many nodes as its own counts say: the node
/// it makes has the token's symbol, the last nodes of the stack as its right
/// operands, the nodes before them as its left operands, each in the order
/// they stood in, and the rest of the stack stays as it was. Without enough
/// nodes there is no node.
pub proof fn lemma_operator_takes_its_counts(
    stack: Seq<NodeModel>,
    symbol: Seq<char>,
    rank: (i32, i32),
)
    ensures
        match ast_step(stack, TokenModel::Operator(symbol, rank)) {
            Ok(next) => {
                &&& stack.len() >= count(rank.0) + count(rank.1)
                &&& next.len() == stack.len() - count(rank.0) - count(rank.1) + 1
                &&& next.drop_last() == stack.take(stack.len() - count(rank.0) - count(rank.1))
                &&& next.last() matches NodeModel::Op(s, left, right) && s == symbol
                    && left.len() == count(rank.0) && right.len() == count(rank.1) && left
                    + right == stack.skip(stack.len() - count(rank.0) - count(rank.1))
            },
            Err(e) => e == AstError::MissingOperand && stack.len() < count(rank.0) + count(
                rank.1,
            ),
        },
{
    let l = count(rank.0);
    let r = count(rank.1);
    let n = stack.len() as int;
    if n >= l + r {
        let next = stack.take(n - r - l).push(
            NodeModel::Op(symbol, stack.subrange(n - r - l, n - r), stack.subrange(n - r, n)),
        );
        assert(next.drop_last() =~= stack.take(n - r - l));
        assert(stack.subrange(n - r - l, n - r) + stack.subrange(n - r, n) =~= stack.skip(
            n - r - l,
        ));
    }
}

/// The stack reduction from the `i`-th token on.
pub open spec fn ast_run(ts: Seq<TokenModel>, i: int, stack: Seq<NodeModel>) -> Result<
    Seq<NodeModel>,
    AstError,
>
    decreases ts, 1nat, ts.len() - i,
{
    if i < 0 || i >= ts.len() {
        Ok(stack)
    } else {
        match ast_step(stack, ts[i]) {
            Ok(next) => ast_run(ts, i + 1, next),
            Err(e) => Err(e),
        }
    }
}

/// The nodes that a postfix token list reduces to.
pub open spec fn to_ast_spec(ts: Seq<TokenModel>) -> Result<Seq<NodeModel>, AstError>
    decreases ts, 2nat, 0nat,
{
    ast_run(ts, 0, Seq::empty())
}

/// Whether every operator node in the tree has as many operands on each side
/// as the operator table gives its symbol.
pub open spec fn node_arity_ok(n: NodeModel) -> bool
    decreases n,
{
    match n {
        NodeModel::Op(symbol, left, right) => {
            &&& op_info(symbol) is Some
            &&& left.len() == op_info(symbol)->0.left
            &&& right.len() == op_info(symbol)->0.right
            &&& forall|i: int| 0 <= i < left.len() ==> node_arity_ok(#[trigger] left[i])
            &&& forall|i: int| 0 <= i < right.len() ==> node_arity_ok(#[trigger] right[i])
        },
        NodeModel::Group(body) => forall|i: int|
            0 <= i < body.len() ==> node_arity_ok(#[trigger] body[i]),
        NodeModel::Block(body, _) => forall|i: int|
            0 <= i < body.len() ==> node_arity_ok(#[trigger] body[i]),
        NodeModel::Sequence(entries, block, length) => {
            &&& forall|i: int| 0 <= i < entries.len() ==> node_arity_ok(#[trigger] entries[i])
            &&& node_arity_ok(*block)
            &&& length matches Some(l) ==> node_arity_ok(*l)
        },
        _ => true,
    }
}

/// Whether every node of a run has operator nodes of the right arity only.
pub open spec fn nodes_arity_ok(ns: Seq<NodeModel>) -> bool {
    forall|i: int| 0 <= i < ns.len() ==> node_arity_ok(#[trigger] ns[i])
}

/// The models of a part of a run are that part of the models.
proof fn lemma_nodes_subrange(ns: Seq<Node>, a: int, b: int)
    requires
        0 <= a <= b <= ns.len(),
    ensures
        nodes_model(ns.subrange(a, b)) == nodes_model(ns).subrange(a, b),
{
    assert(nodes_model(ns.subrange(a, b)) =~= nodes_model(ns).subrange(a, b));
}

fn push_node(ns: &mut Vec<Node>, n: Node)
    ensures
        nodes_model(final(ns)@) == nodes_model(old(ns)@).push(node_model(n)),
        final(ns)@.len() == old(ns)@.len() + 1,
        nodes_arity_ok(nodes_model(old(ns)@)) && node_arity_ok(node_model(n)) ==> nodes_arity_ok(
            nodes_model(final(ns)@),
        ),
{
    proof {
        lemma_nodes_push(ns@, n);
    }
    ns.push(n);
}

fn is_arrow(s: &String) -> (r: bool)
    ensures
        r == (s@ == seq!['-', '>']),
{
    let v = chars_of(s.as_str());
    if v.len() == 2 && v[0] == '-' && v[1] == '>' {
        assert(v@ =~= seq!['-', '>']);
        true
    } else {
        assert(seq!['-', '>'].len() == 2 && seq!['-', '>'][0] == '-' && seq!['-', '>'][1] == '>');
        false
    }
}

fn is_block_node(n: &Node) -> (r: bool)
    ensures
        r == (node_model(*n) is Block),
{
    match n {
        Node::Block(_, _) => true,
        _ => false,
    }
}

fn sized_tail(n: &Node) -> (r: bool)
    ensures
        r == is_sized_tail(node_model(*n)),
{
    proof {
        lemma_node_model(*n);
    }
    match n {
        Node::Op(symbol, left, right) => is_arrow(symbol) && left.len() > 0 && is_block_node(
            &left[0],
        ) && right.len() > 0,
        _ => false,
    }
}

/// Builds the sequence node of a `[ ... ]` body.
fn make_sequence(body: Vec<Node>) -> (r: Node)
    ensures
        node_model(r) == sequence_of(nodes_model(body@)),
        nodes_arity_ok(nodes_model(body@)) ==> node_arity_ok(node_model(r)),
{
    let mut body = body;
    let ghost whole = nodes_model(body@);
    let n = body.len();
    if n > 0 {
        assert(whole.last() == node_model(body@[n - 1]));
        if sized_tail(&body[n - 1]) {
            let last = body.pop();
            assert(nodes_model(body@) =~= whole.drop_last());
            match last {
                Some(Node::Op(symbol, left, right)) => {
                    let mut left = left;
                    let mut right = right;
                    proof {
                        lemma_node_model(Node::Op(symbol, left, right));
                    }
                    let ghost lm = nodes_model(left@);
                    let ghost rm = nodes_model(right@);
                    let block = left.remove(0);
                    let size = right.remove(0);
                    assert(node_model(block) == lm[0]);
                    assert(node_model(size) == rm[0]);
                    let r = Node::Sequence(body, Box::new(block), Some(Box::new(size)));
                    proof {
                        lemma_node_model(r);
                        assert(nodes_arity_ok(whole) ==> node_arity_ok(whole.last()));
                    }
                    return r;
                },
                _ => {
                    assert(false);
                },
            }
        } else if is_block_node(&body[n - 1]) {
            let last = body.pop();
            assert(nodes_model(body@) =~= whole.drop_last());
            match last {
                Some(block) => {
                    let r = Node::Sequence(body, Box::new(block), None);
                    proof {
                        lemma_node_model(r);
                        assert(nodes_arity_ok(whole) ==> node_arity_ok(whole.last()));
                    }
                    return r;
                },
                None => {
                    assert(false);
                },
            }
        }
    }
    let generator = Node::Block(Vec::new(), None);
    let length = Node::Number(num_of_usize(n));
    proof {
        lemma_node_model(generator);
        assert(nodes_model(Seq::<Node>::empty()) =~= Seq::<NodeModel>::empty());
    }
    let r = Node::Sequence(body, Box::new(generator), Some(Box::new(length)));
    proof {
        lemma_node_model(r);
        assert(node_arity_ok(empty_block()));
        assert(node_arity_ok(node_model(length)));
    }
    r
}

/// Builds the nodes of a postfix token list. Every operator node has the
/// symbol of an operator token of the list and as many operands on each side
/// as that token's counts say. Built from the tokens of the lexer, every
/// operator node has the operands that the operator table asks for.
pub fn to_ast(postfix: &[Token]) -> (r: Result<Vec<Node>, AstError>)
    ensures
        match r {
            Ok(nodes) => to_ast_spec(tokens_model(postfix@)) == Ok::<Seq<NodeModel>, AstError>(
                nodes_model(nodes@),
            ),
            Err(e) => to_ast_spec(tokens_model(postfix@)) == Err::<Seq<NodeModel>, AstError>(e),
        },
        tokens_sound(tokens_model(postfix@)) && r is Ok ==> nodes_arity_ok(nodes_model(r->Ok_0@)),
        reducible(tokens_model(postfix@)) ==> r is Ok,
        r is Ok ==> nodes_from(nodes_model(r->Ok_0@), tokens_model(postfix@)),
    decreases postfix@,
{
    let mut output: Vec<Node> = Vec::new();
    let ghost model = tokens_model(postfix@);
    let mut i: usize = 0;
    assert(nodes_model(output@) =~= Seq::<NodeModel>::empty());
    assert(model.take(0) =~= Seq::<TokenModel>::empty());
    while i < postfix.len()
        invariant
            i <= postfix@.len(),
            model == tokens_model(postfix@),
            to_ast_spec(model) == ast_run(model, i as int, nodes_model(output@)),
            tokens_sound(model) ==> nodes_arity_ok(nodes_model(output@)),
            reducible(model) ==> output@.len() == depth(model.take(i as int)),
        decreases postfix.len() - i,
    {
        let tok = &postfix[i];
        proof {
            if reducible(model) {
                lemma_reducible_at(model, i as int);
            }
        }
        let ghost stack = nodes_model(output@);
        assert(model[i as int] == token_model(postfix@[i as int]));
        assert(tokens_sound(model) ==> token_sound(model[i as int]));
        assert(ast_run(model, i as int, stack) == match ast_step(stack, model[i as int]) {
            Ok(next) => ast_run(model, i + 1, next),
            Err(e) => Err(e),
        });
        match tok {
            Token::String(s) => {
                push_node(&mut output, Node::String(s.clone()));
                assert(ast_step(stack, model[i as int]) == Ok::<Seq<NodeModel>, AstError>(
                    nodes_model(output@),
                ));
            },
            Token::CmpString(s, c) => {
                push_node(&mut output, Node::CmpString(s.clone(), *c));
                assert(ast_step(stack, model[i as int]) == Ok::<Seq<NodeModel>, AstError>(
                    nodes_model(output@),
                ));
            },
            Token::Number(n) => {
                push_node(&mut output, Node::Number(n.clone()));
                assert(ast_step(stack, model[i as int]) == Ok::<Seq<NodeModel>, AstError>(
                    nodes_model(output@),
                ));
            },
            Token::Variable(s) => {
                push_node(&mut output, Node::Variable(s.clone()));
                assert(ast_step(stack, model[i as int]) == Ok::<Seq<NodeModel>, AstError>(
                    nodes_model(output@),
                ));
            },
            Token::Block(body, c, name) => {
                proof {
                    lemma_block_model(*body, *c, *name);
                }
                if *c != '{' && *c != '(' && *c != '[' {
                    return Err(AstError::UnknownBracket(*c));
                }
                assert(tokens_sound(model) ==> tokens_sound(tokens_model(body@)));
                match to_ast(body.as_slice()) {
                    Ok(nodes) => {
                        let node = if *c == '{' {
                            Node::Block(nodes, clone_name(name))
                        } else if *c == '(' {
                            Node::Group(nodes)
                        } else {
                            make_sequence(nodes)
                        };
                        proof {
                            lemma_node_model(node);
                        }
                        push_node(&mut output, node);
                        assert(ast_step(stack, model[i as int]) == Ok::<Seq<NodeModel>, AstError>(
                            nodes_model(output@),
                        ));
                    },
                    Err(e) => {
                        return Err(e);
                    },
                }
            },
            Token::Operator(symbol, rank) => {
                let l: usize = if rank.0 > 0 {
                    rank.0 as usize
                } else {
                    0
                };
                let r: usize = if rank.1 > 0 {
                    rank.1 as usize
                } else {
                    0
                };
                let n = output.len();
                if n < r || n - r < l {
                    return Err(AstError::MissingOperand);
                }
                proof {
                    lemma_nodes_subrange(output@, n - r, n as int);
                    lemma_nodes_subrange(output@, n - r - l, n - r);
                    lemma_nodes_subrange(output@, 0, n - r - l);
                }
                let ghost full = output@;
                let right = output.split_off(n - r);
                let left = output.split_off(n - r - l);
                let node = Node::Op(symbol.clone(), left, right);
                proof {
                    lemma_node_model(node);
                    assert(left@ =~= full.subrange(n - r - l, n - r));
                    assert(output@ =~= full.subrange(0, n - r - l));
                    assert(stack.take(n - r - l) =~= stack.subrange(0, n - r - l));
                    assert(count(rank.0) == l && count(rank.1) == r);
                    if tokens_sound(model) {
                        assert forall|k: int| 0 <= k < left@.len() implies node_arity_ok(
                            #[trigger] nodes_model(left@)[k],
                        ) by {
                            assert(nodes_model(left@)[k] == stack[n - r - l + k]);
                        }
                        assert forall|k: int| 0 <= k < right@.len() implies node_arity_ok(
                            #[trigger] nodes_model(right@)[k],
                        ) by {
                            assert(nodes_model(right@)[k] == stack[n - r + k]);
                        }
                    }
                }
                push_node(&mut output, node);
                assert(ast_step(stack, model[i as int]) == Ok::<Seq<NodeModel>, AstError>(
                    nodes_model(output@),
                ));
            },
            Token::Comma => {
                return Err(AstError::UnexpectedComma);
            },
        }
        i += 1;
    }
    proof {
        lemma_tree_from(model);
    }
    Ok(output)
}

} // verus!
