//! Pure operations on values and trees that the evaluator builds on:
//! literals of values, the substitution of earlier entries into a generator
//! block, and the texts of numbers.

use crate::ast::empty_block;
use crate::num::{decimal, num_of_usize};
use crate::tokens::{
    clone_name, lemma_node_model, lemma_nodes_push, node_model, nodes_model, Node, NodeModel, Num,
};
use crate::types::{
    dyn_model, dyns_model, lemma_seq_model, Dynamic, Sequence, SequenceModel, Val, ValModel,
};
use crate::text::{chars_of, has_char, string_of};
use vstd::prelude::*;

verus! {

/// The literal that evaluates to the value: a string or a number as it is, a
/// boolean as the number 1 or 0, a finite sequence as a sequence literal of
/// its computed entries, its block and its length. An infinite sequence and
/// the empty value have no literal.
pub open spec fn literal_of(v: ValModel) -> Option<NodeModel>
    decreases v, 1nat, 0nat,
{
    match v {
        ValModel::String(s) => Some(NodeModel::String(s)),
        ValModel::Number(n) => Some(NodeModel::Number(n)),
        ValModel::Boolean(b) => Some(
            NodeModel::Number(
                if b {
                    seq!['1']
                } else {
                    seq!['0']
                },
            ),
        ),
        ValModel::Array(q) => match q.length {
            Some(n) => match literals_from(q.cstr, 0, Seq::empty()) {
                Some(entries) => Some(
                    NodeModel::Sequence(
                        entries,
                        Box::new(q.block),
                        Some(Box::new(NodeModel::Number(decimal(n as nat)))),
                    ),
                ),
                None => None,
            },
            None => None,
        },
        ValModel::Empty => None,
    }
}

/// The literals of the values from index `i` on, behind `acc`; none if one
/// of the values has no literal.
pub open spec fn literals_from(vs: Seq<ValModel>, i: int, acc: Seq<NodeModel>) -> Option<
    Seq<NodeModel>,
>
    decreases vs, 0nat, vs.len() - i,
{
    if i < 0 || i >= vs.len() {
        Some(acc)
    } else {
        match literal_of(vs[i]) {
            Some(n) => literals_from(vs, i + 1, acc.push(n)),
            None => None,
        }
    }
}

/// The literals of the values, in order.
pub open spec fn literals_of(vs: Seq<ValModel>) -> Option<Seq<NodeModel>> {
    literals_from(vs, 0, Seq::empty())
}

/// The tree with each `_` replaced by an entry, and the entries that are
/// left. The tree is walked in order (a block or group statement by
/// statement, an operator's left operands before its right ones), and each
/// `_` takes the last entry that is left. There is no result when the
/// entries run out, or when the tree holds a compressed string or a sequence
/// literal.
pub open spec fn replace_spec(entries: Seq<NodeModel>, tree: NodeModel) -> Option<
    (NodeModel, Seq<NodeModel>),
>
    decreases tree, 1nat, 0nat,
{
    match tree {
        NodeModel::Block(body, name) => match replace_all(entries, body, 0, Seq::empty()) {
            Some((nodes, rest)) => Some((NodeModel::Block(nodes, name), rest)),
            None => None,
        },
        NodeModel::String(_) => Some((tree, entries)),
        NodeModel::Number(_) => Some((tree, entries)),
        NodeModel::Variable(v) => if v == seq!['_'] {
            if entries.len() > 0 {
                Some((entries.last(), entries.drop_last()))
            } else {
                None
            }
        } else {
            Some((tree, entries))
        },
        NodeModel::Group(body) => match replace_all(entries, body, 0, Seq::empty()) {
            Some((nodes, rest)) => Some((NodeModel::Group(nodes), rest)),
            None => None,
        },
        NodeModel::Op(symbol, left, right) => match replace_all(entries, left, 0, Seq::empty()) {
            Some((nl, rest)) => match replace_all(rest, right, 0, Seq::empty()) {
                Some((nr, rest2)) => Some((NodeModel::Op(symbol, nl, nr), rest2)),
                None => None,
            },
            None => None,
        },
        _ => None,
    }
}

/// The trees from index `i` on with each `_` replaced, behind `acc`.
pub open spec fn replace_all(
    entries: Seq<NodeModel>,
    trees: Seq<NodeModel>,
    i: int,
    acc: Seq<NodeModel>,
) -> Option<(Seq<NodeModel>, Seq<NodeModel>)>
    decreases trees, 0nat, trees.len() - i,
{
    if i < 0 || i >= trees.len() {
        Some((acc, entries))
    } else {
        match replace_spec(entries, trees[i]) {
            Some((n, rest)) => replace_all(rest, trees, i + 1, acc.push(n)),
            None => None,
        }
    }
}

/// The text without the characters `c` at its end.
pub open spec fn trim_end(t: Seq<char>, c: char) -> Seq<char>
    decreases t.len(),
{
    if t.len() > 0 && t.last() == c {
        trim_end(t.drop_last(), c)
    } else {
        t
    }
}

/// The text with every `from` replaced by `to`.
pub open spec fn swap_char(t: Seq<char>, from: char, to: char) -> Seq<char> {
    t.map_values(|c: char| if c == from { to } else { c })
}

/// How a number is printed, given its digits in base ten: a number with a
/// decimal point and no exponent loses the zeros at its end and then a bare
/// point, and the minus sign is written `_`.
pub open spec fn tidy_number(t: Seq<char>) -> Seq<char> {
    if t.contains('.') && !t.contains('e') {
        swap_char(trim_end(trim_end(t, '0'), '.'), '-', '_')
    } else {
        swap_char(t, '-', '_')
    }
}

/// The sequence value that holds the given entries and nothing more.
pub open spec fn array_of(items: Seq<ValModel>) -> ValModel {
    ValModel::Array(
        Box::new(
            SequenceModel {
                cstr: items,
                length: Some(items.len() as usize),
                block: empty_block(),
                back: None,
                env: None,
                index: 0,
            },
        ),
    )
}

/// The numeral of a truth value: 1 or 0.
pub open spec fn truth_numeral(b: bool) -> Seq<char> {
    if b {
        seq!['1']
    } else {
        seq!['0']
    }
}

fn push_node(ns: &mut Vec<Node>, n: Node)
    ensures
        nodes_model(final(ns)@) == nodes_model(old(ns)@).push(node_model(n)),
{
    proof {
        lemma_nodes_push(ns@, n);
    }
    ns.push(n);
}

/// The literals of a run of values.
pub fn literals(vs: &Vec<Dynamic>) -> (r: Option<Vec<Node>>)
    ensures
        match r {
            Some(ns) => literals_of(dyns_model(vs@)) == Some(nodes_model(ns@)),
            None => literals_of(dyns_model(vs@)) is None,
        },
    decreases *vs, 0nat,
{
    let mut out: Vec<Node> = Vec::new();
    let mut i: usize = 0;
    assert(nodes_model(out@) =~= Seq::<NodeModel>::empty());
    while i < vs.len()
        invariant
            i <= vs.len(),
            literals_of(dyns_model(vs@)) == literals_from(
                dyns_model(vs@),
                i as int,
                nodes_model(out@),
            ),
        decreases vs.len() - i,
    {
        match vs[i].into_node() {
            Some(n) => {
                push_node(&mut out, n);
            },
            None => {
                return None;
            },
        }
        i += 1;
    }
    Some(out)
}

impl Dynamic {
    /// The literal that evaluates to this value, if it has one.
    pub fn into_node(&self) -> (r: Option<Node>)
        ensures
            match r {
                Some(n) => literal_of(dyn_model(*self)) == Some(node_model(n)),
                None => literal_of(dyn_model(*self)) is None,
            },
        decreases *self, 1nat,
    {
        match &self.val {
            Val::String(s) => Some(Node::String(s.clone())),
            Val::Number(n) => Some(Node::Number(n.clone())),
            Val::Boolean(b) => {
                let mut v: Vec<char> = Vec::new();
                v.push(if *b { '1' } else { '0' });
                assert(v@ =~= truth_numeral(*b));
                Some(Node::Number(Num { text: string_of(&v) }))
            },
            Val::Array(q) => {
                proof {
                    lemma_seq_model(**q);
                }
                match q.length {
                    Some(n) => match literals(&q.cstr) {
                        Some(entries) => {
                            let r = Node::Sequence(
                                entries,
                                Box::new(q.block.clone()),
                                Some(Box::new(Node::Number(num_of_usize(n)))),
                            );
                            proof {
                                lemma_node_model(r);
                            }
                            Some(r)
                        },
                        None => None,
                    },
                    None => None,
                }
            },
            Val::Empty => None,
        }
    }
}

fn is_underscore(s: &String) -> (r: bool)
    ensures
        r == (s@ == seq!['_']),
{
    let v = chars_of(s.as_str());
    if v.len() == 1 && v[0] == '_' {
        assert(v@ =~= seq!['_']);
        true
    } else {
        assert(seq!['_'].len() == 1 && seq!['_'][0] == '_');
        false
    }
}

fn replace_nodes(entries: &mut Vec<Node>, trees: &Vec<Node>) -> (r: Option<Vec<Node>>)
    ensures
        match r {
            Some(ns) => replace_all(
                nodes_model(old(entries)@),
                nodes_model(trees@),
                0,
                Seq::empty(),
            ) == Some((nodes_model(ns@), nodes_model(final(entries)@))),
            None => replace_all(nodes_model(old(entries)@), nodes_model(trees@), 0, Seq::empty())
                is None,
        },
    decreases *trees, 0nat,
{
    let mut out: Vec<Node> = Vec::new();
    let mut i: usize = 0;
    assert(nodes_model(out@) =~= Seq::<NodeModel>::empty());
    while i < trees.len()
        invariant
            i <= trees.len(),
            replace_all(nodes_model(old(entries)@), nodes_model(trees@), 0, Seq::empty())
                == replace_all(
                nodes_model(entries@),
                nodes_model(trees@),
                i as int,
                nodes_model(out@),
            ),
        decreases trees.len() - i,
    {
        match traverse_replace(entries, &trees[i]) {
            Some(n) => {
                push_node(&mut out, n);
            },
            None => {
                return None;
            },
        }
        i += 1;
    }
    Some(out)
}

/// Replaces each `_` in the tree by an entry, taking entries from the end.
pub fn traverse_replace(entries: &mut Vec<Node>, tree: &Node) -> (r: Option<Node>)
    ensures
        match r {
            Some(n) => replace_spec(nodes_model(old(entries)@), node_model(*tree)) == Some(
                (node_model(n), nodes_model(final(entries)@)),
            ),
            None => replace_spec(nodes_model(old(entries)@), node_model(*tree)) is None,
        },
    decreases *tree, 1nat,
{
    proof {
        lemma_node_model(*tree);
    }
    match tree {
        Node::Block(body, name) => match replace_nodes(entries, body) {
            Some(nodes) => {
                let r = Node::Block(nodes, clone_name(name));
                proof {
                    lemma_node_model(r);
                }
                Some(r)
            },
            None => None,
        },
        Node::String(_) => Some(tree.clone()),
        Node::Number(_) => Some(tree.clone()),
        Node::Variable(v) => {
            if is_underscore(v) {
                let n = entries.len();
                if n > 0 {
                    assert(nodes_model(entries@).last() == node_model(entries@[n - 1]));
                    assert(nodes_model(entries@.drop_last()) =~= nodes_model(entries@).drop_last());
                    entries.pop()
                } else {
                    None
                }
            } else {
                Some(tree.clone())
            }
        },
        Node::Group(body) => match replace_nodes(entries, body) {
            Some(nodes) => {
                let r = Node::Group(nodes);
                proof {
                    lemma_node_model(r);
                }
                Some(r)
            },
            None => None,
        },
        Node::Op(symbol, left, right) => match replace_nodes(entries, left) {
            Some(nl) => match replace_nodes(entries, right) {
                Some(nr) => {
                    let r = Node::Op(symbol.clone(), nl, nr);
                    proof {
                        lemma_node_model(r);
                    }
                    Some(r)
                },
                None => None,
            },
            None => None,
        },
        _ => None,
    }
}

/// Tidies the digits of a number for printing.
pub fn tidy(t: &Vec<char>) -> (r: Vec<char>)
    ensures
        r@ == tidy_number(t@),
{
    let mut end: usize = t.len();
    if has_char(t, '.') && !has_char(t, 'e') {
        assert(t@.take(end as int) =~= t@);
        while end > 0 && t[end - 1] == '0'
            invariant
                end <= t.len(),
                trim_end(t@, '0') == trim_end(t@.take(end as int), '0'),
            decreases end,
        {
            assert(t@.take(end as int).drop_last() =~= t@.take(end - 1));
            end -= 1;
        }
        let ghost mid = t@.take(end as int);
        assert(trim_end(t@, '0') == mid);
        let ghost end0 = end;
        while end > 0 && t[end - 1] == '.'
            invariant
                end <= end0 <= t.len(),
                mid == t@.take(end0 as int),
                trim_end(mid, '.') == trim_end(t@.take(end as int), '.'),
            decreases end,
        {
            assert(t@.take(end as int).drop_last() =~= t@.take(end - 1));
            end -= 1;
        }
        assert(trim_end(trim_end(t@, '0'), '.') == t@.take(end as int));
    } else {
        assert(t@.take(end as int) =~= t@);
    }
    let mut out: Vec<char> = Vec::new();
    let mut i: usize = 0;
    while i < end
        invariant
            i <= end <= t.len(),
            out@ == swap_char(t@.take(i as int), '-', '_'),
        decreases end - i,
    {
        let c = t[i];
        out.push(if c == '-' { '_' } else { c });
        i += 1;
        assert(out@ =~= swap_char(t@.take(i as int), '-', '_'));
    }
    out
}

} // verus!
