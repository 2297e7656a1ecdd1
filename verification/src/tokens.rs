//! Tokens, syntax-tree nodes, and their mathematical models.

use crate::ops::{op_info, rank_of};
use vstd::prelude::*;

verus! {

/// A numeral: the exact text of a number, in the notation of the numeric
/// backend (an optional `-`, digits, an optional fraction and exponent).
#[derive(Debug)]
pub struct Num {
    pub text: String,
}

impl DeepView for Num {
    type V = Seq<char>;

    open spec fn deep_view(&self) -> Seq<char> {
        self.text@
    }
}

impl Clone for Num {
    fn clone(&self) -> (r: Self)
        ensures
            r.deep_view() == self.deep_view(),
    {
        Num { text: self.text.clone() }
    }
}

/// What the lexer hands on.
#[derive(Debug)]
pub enum Token {
    /// A string literal.
    String(String),
    /// A compressed string literal and the quote that closed it.
    CmpString(String, char),
    /// A number literal.
    Number(Num),
    /// An identifier.
    Variable(String),
    /// A grouped subprogram, its opening bracket, and the parameter name
    /// taken from an identifier right before a `{`.
    Block(Vec<Token>, char, Option<String>),
    /// An operator with its left and right argument counts.
    Operator(String, (i32, i32)),
    /// An expression separator.
    Comma,
}

/// The model of a [`Token`]: text as character sequences, bodies as sequences.
pub enum TokenModel {
    String(Seq<char>),
    CmpString(Seq<char>, char),
    Number(Seq<char>),
    Variable(Seq<char>),
    Block(Seq<TokenModel>, char, Option<Seq<char>>),
    Operator(Seq<char>, (i32, i32)),
    Comma,
}

/// The model of an optional name.
pub open spec fn name_model(name: Option<String>) -> Option<Seq<char>> {
    match name {
        Some(s) => Some(s@),
        None => None,
    }
}

/// The model of one token.
pub open spec fn token_model(t: Token) -> TokenModel
    decreases t,
{
    match t {
        Token::String(s) => TokenModel::String(s@),
        Token::CmpString(s, c) => TokenModel::CmpString(s@, c),
        Token::Number(n) => TokenModel::Number(n.text@),
        Token::Variable(s) => TokenModel::Variable(s@),
        Token::Block(body, c, name) => TokenModel::Block(
            Seq::new(
                body@.len(),
                |i: int|
                    if 0 <= i < body@.len() {
                        token_model(body@[i])
                    } else {
                        TokenModel::Comma
                    },
            ),
            c,
            name_model(name),
        ),
        Token::Operator(s, rank) => TokenModel::Operator(s@, rank),
        Token::Comma => TokenModel::Comma,
    }
}

/// The models of a run of tokens.
pub open spec fn tokens_model(ts: Seq<Token>) -> Seq<TokenModel> {
    Seq::new(ts.len(), |i: int| token_model(ts[i]))
}

/// Whether a token is one that the lexer can emit: an operator carries the
/// argument counts that the operator table gives its symbol, and a block
/// was opened by `{`, `(` or `[` and holds such tokens only.
pub open spec fn token_sound(t: TokenModel) -> bool
    decreases t,
{
    match t {
        TokenModel::Operator(symbol, rank) => op_info(symbol) is Some && rank == rank_of(
            op_info(symbol)->0,
        ),
        TokenModel::Block(body, c, _) => (c == '{' || c == '(' || c == '[') && forall|i: int|
            0 <= i < body.len() ==> token_sound(#[trigger] body[i]),
        _ => true,
    }
}

/// Whether every token of a run is sound.
pub open spec fn tokens_sound(ts: Seq<TokenModel>) -> bool {
    forall|i: int| 0 <= i < ts.len() ==> token_sound(#[trigger] ts[i])
}

impl DeepView for Token {
    type V = TokenModel;

    open spec fn deep_view(&self) -> TokenModel {
        token_model(*self)
    }
}

/// The model of a block token is built from the models of its body.
pub proof fn lemma_block_model(body: Vec<Token>, c: char, name: Option<String>)
    ensures
        token_model(Token::Block(body, c, name)) == TokenModel::Block(
            tokens_model(body@),
            c,
            name_model(name),
        ),
{
    assert(token_model(Token::Block(body, c, name))->Block_0 =~= tokens_model(body@));
}

/// Appending a token appends its model.
pub proof fn lemma_tokens_push(ts: Seq<Token>, t: Token)
    ensures
        tokens_model(ts.push(t)) == tokens_model(ts).push(token_model(t)),
{
    assert(tokens_model(ts.push(t)) =~= tokens_model(ts).push(token_model(t)));
}

impl Clone for Token {
    fn clone(&self) -> (r: Self)
        ensures
            token_model(r) == token_model(*self),
        decreases *self,
    {
        match self {
            Token::String(s) => Token::String(s.clone()),
            Token::CmpString(s, c) => Token::CmpString(s.clone(), *c),
            Token::Number(n) => Token::Number(n.clone()),
            Token::Variable(s) => Token::Variable(s.clone()),
            Token::Block(body, c, name) => {
                let mut out: Vec<Token> = Vec::new();
                let mut i: usize = 0;
                while i < body.len()
                    invariant
                        i <= body.len(),
                        *self is Block,
                        self->Block_0 == *body,
                        tokens_model(out@) == tokens_model(body@.take(i as int)),
                    decreases body.len() - i,
                {
                    let t = body[i].clone();
                    proof {
                        lemma_tokens_push(out@, t);
                        lemma_tokens_push(body@.take(i as int), body@[i as int]);
                        assert(body@.take(i as int).push(body@[i as int]) =~= body@.take(i + 1));
                    }
                    out.push(t);
                    i += 1;
                }
                let name2 = match name {
                    Some(s) => Some(s.clone()),
                    None => None,
                };
                proof {
                    assert(body@.take(body.len() as int) =~= body@);
                    lemma_block_model(out, *c, name2);
                    lemma_block_model(*body, *c, *name);
                }
                Token::Block(out, *c, name2)
            },
            Token::Operator(s, rank) => Token::Operator(s.clone(), *rank),
            Token::Comma => Token::Comma,
        }
    }
}

/// A node of the syntax tree.
#[derive(Debug)]
pub enum Node {
    /// An operator with its left and right operands.
    Op(String, Vec<Node>, Vec<Node>),
    /// A string literal.
    String(String),
    /// A compressed string literal and its quote.
    CmpString(String, char),
    /// A number literal.
    Number(Num),
    /// An identifier.
    Variable(String),
    /// A `( ... )` group: statements evaluated where they stand.
    Group(Vec<Node>),
    /// A `{ ... }` block: statements with an optional parameter name.
    Block(Vec<Node>, Option<String>),
    /// A `[ ... ]` sequence: the known entries, the block that generates
    /// further entries, and the length, absent for an infinite sequence.
    Sequence(Vec<Node>, Box<Node>, Option<Box<Node>>),
}

/// The model of a [`Node`].
pub enum NodeModel {
    Op(Seq<char>, Seq<NodeModel>, Seq<NodeModel>),
    String(Seq<char>),
    CmpString(Seq<char>, char),
    Number(Seq<char>),
    Variable(Seq<char>),
    Group(Seq<NodeModel>),
    Block(Seq<NodeModel>, Option<Seq<char>>),
    Sequence(Seq<NodeModel>, Box<NodeModel>, Option<Box<NodeModel>>),
}

/// The model of one node.
pub open spec fn node_model(n: Node) -> NodeModel
    decreases n,
{
    match n {
        Node::Op(symbol, left, right) => NodeModel::Op(
            symbol@,
            Seq::new(
                left@.len(),
                |i: int|
                    if 0 <= i < left@.len() {
                        node_model(left@[i])
                    } else {
                        NodeModel::Group(Seq::empty())
                    },
            ),
            Seq::new(
                right@.len(),
                |i: int|
                    if 0 <= i < right@.len() {
                        node_model(right@[i])
                    } else {
                        NodeModel::Group(Seq::empty())
                    },
            ),
        ),
        Node::String(s) => NodeModel::String(s@),
        Node::CmpString(s, c) => NodeModel::CmpString(s@, c),
        Node::Number(n) => NodeModel::Number(n.text@),
        Node::Variable(s) => NodeModel::Variable(s@),
        Node::Group(body) => NodeModel::Group(
            Seq::new(
                body@.len(),
                |i: int|
                    if 0 <= i < body@.len() {
                        node_model(body@[i])
                    } else {
                        NodeModel::Group(Seq::empty())
                    },
            ),
        ),
        Node::Block(body, name) => NodeModel::Block(
            Seq::new(
                body@.len(),
                |i: int|
                    if 0 <= i < body@.len() {
                        node_model(body@[i])
                    } else {
                        NodeModel::Group(Seq::empty())
                    },
            ),
            name_model(name),
        ),
        Node::Sequence(entries, block, length) => NodeModel::Sequence(
            Seq::new(
                entries@.len(),
                |i: int|
                    if 0 <= i < entries@.len() {
                        node_model(entries@[i])
                    } else {
                        NodeModel::Group(Seq::empty())
                    },
            ),
            Box::new(node_model(*block)),
            match length {
                Some(l) => Some(Box::new(node_model(*l))),
                None => None,
            },
        ),
    }
}

/// The models of a run of nodes.
pub open spec fn nodes_model(ns: Seq<Node>) -> Seq<NodeModel> {
    Seq::new(ns.len(), |i: int| node_model(ns[i]))
}

impl DeepView for Node {
    type V = NodeModel;

    open spec fn deep_view(&self) -> NodeModel {
        node_model(*self)
    }
}

/// The model of a node is built from the models of its parts.
pub proof fn lemma_node_model(n: Node)
    ensures
        n matches Node::Op(symbol, left, right) ==> node_model(n) == NodeModel::Op(
            symbol@,
            nodes_model(left@),
            nodes_model(right@),
        ),
        n matches Node::Group(body) ==> node_model(n) == NodeModel::Group(nodes_model(body@)),
        n matches Node::Block(body, name) ==> node_model(n) == NodeModel::Block(
            nodes_model(body@),
            name_model(name),
        ),
        n matches Node::Sequence(entries, block, length) ==> node_model(n) == NodeModel::Sequence(
            nodes_model(entries@),
            Box::new(node_model(*block)),
            match length {
                Some(l) => Some(Box::new(node_model(*l))),
                None => None,
            },
        ),
{
    match n {
        Node::Op(symbol, left, right) => {
            assert(node_model(n)->Op_1 =~= nodes_model(left@));
            assert(node_model(n)->Op_2 =~= nodes_model(right@));
        },
        Node::Group(body) => {
            assert(node_model(n)->Group_0 =~= nodes_model(body@));
        },
        Node::Block(body, name) => {
            assert(node_model(n)->Block_0 =~= nodes_model(body@));
        },
        Node::Sequence(entries, block, length) => {
            assert(node_model(n)->Sequence_0 =~= nodes_model(entries@));
        },
        _ => {},
    }
}

/// Appending a node appends its model.
pub proof fn lemma_nodes_push(ns: Seq<Node>, n: Node)
    ensures
        nodes_model(ns.push(n)) == nodes_model(ns).push(node_model(n)),
{
    assert(nodes_model(ns.push(n)) =~= nodes_model(ns).push(node_model(n)));
}

/// A copy of a run of nodes.
pub fn clone_nodes(ns: &Vec<Node>) -> (r: Vec<Node>)
    ensures
        nodes_model(r@) == nodes_model(ns@),
    decreases *ns, 1nat,
{
    let mut out: Vec<Node> = Vec::new();
    let mut i: usize = 0;
    assert(nodes_model(out@) =~= nodes_model(ns@.take(0)));
    while i < ns.len()
        invariant
            i <= ns.len(),
            nodes_model(out@) == nodes_model(ns@.take(i as int)),
        decreases ns.len() - i,
    {
        let n = ns[i].clone();
        proof {
            lemma_nodes_push(out@, n);
            lemma_nodes_push(ns@.take(i as int), ns@[i as int]);
            assert(ns@.take(i as int).push(ns@[i as int]) =~= ns@.take(i + 1));
        }
        out.push(n);
        i += 1;
    }
    assert(ns@.take(ns.len() as int) =~= ns@);
    out
}

/// A copy of an optional name.
pub fn clone_name(name: &Option<String>) -> (r: Option<String>)
    ensures
        name_model(r) == name_model(*name),
{
    match name {
        Some(s) => Some(s.clone()),
        None => None,
    }
}

impl Clone for Node {
    fn clone(&self) -> (r: Self)
        ensures
            node_model(r) == node_model(*self),
        decreases *self, 0nat,
    {
        proof {
            lemma_node_model(*self);
        }
        let r = match self {
            Node::Op(symbol, left, right) => Node::Op(
                symbol.clone(),
                clone_nodes(left),
                clone_nodes(right),
            ),
            Node::String(s) => Node::String(s.clone()),
            Node::CmpString(s, c) => Node::CmpString(s.clone(), *c),
            Node::Number(n) => Node::Number(n.clone()),
            Node::Variable(s) => Node::Variable(s.clone()),
            Node::Group(body) => Node::Group(clone_nodes(body)),
            Node::Block(body, name) => Node::Block(clone_nodes(body), clone_name(name)),
            Node::Sequence(entries, block, length) => {
                let l = match length {
                    Some(b) => Some(Box::new((**b).clone())),
                    None => None,
                };
                Node::Sequence(clone_nodes(entries), Box::new((**block).clone()), l)
            },
        };
        proof {
            lemma_node_model(r);
        }
        r
    }
}

} // verus!
