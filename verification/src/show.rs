//! The text of a node: the program text that the node stands for, as it is
//! used for names and for programs built during evaluation.

use crate::dict::{decompress, decompress_spec};
use crate::eval::{format_number, number_text};
use crate::machine::{ErrorKind, fail, frames_kept, Machine, MachineModel};
use crate::text::{chars_of, append_chars};
use crate::tokens::{lemma_node_model, node_model, nodes_model, Node, NodeModel};
use vstd::prelude::*;

verus! {

/// The text of a node. An operator stands between the texts of its
/// operands, a string between quotes, a group between parentheses, a block
/// between braces behind its parameter name, a sequence between brackets.
/// Numbers are written as they are printed.
pub open spec fn node_text(s: MachineModel, n: NodeModel) -> (Seq<char>, MachineModel)
    decreases n, 1nat, 0nat,
{
    match n {
        NodeModel::Op(symbol, left, right) => {
            let (l, s1) = nodes_text(s, left, 0, Seq::empty(), Seq::empty());
            let (r, s2) = nodes_text(s1, right, 0, Seq::empty(), Seq::empty());
            (l + symbol + seq![' '] + r, s2)
        },
        NodeModel::String(t) => (seq!['"'] + t + seq!['"', ' '], s),
        NodeModel::CmpString(t, c) => match decompress_spec(s.dictionary, t, c == '\'') {
            Some(w) => (seq!['"'] + w + seq!['"'], s),
            None => (Seq::empty(), fail(s, ErrorKind::MissingWord, t)),
        },
        NodeModel::Number(x) => {
            let (t, s1) = number_text(s, x);
            (t.push(' '), s1)
        },
        NodeModel::Variable(v) => (v.push(' '), s),
        NodeModel::Group(body) => {
            let (b, s1) = nodes_text(s, body, 0, Seq::empty(), Seq::empty());
            (seq!['('] + b + seq![')'], s1)
        },
        NodeModel::Block(body, name) => {
            let (b, s1) = nodes_text(s, body, 0, Seq::empty(), Seq::empty());
            (
                (match name {
                    Some(x) => x,
                    None => Seq::empty(),
                }) + seq!['{'] + b + seq!['}', ' '],
                s1,
            )
        },
        NodeModel::Sequence(entries, block, length) => {
            let (e, s1) = nodes_text(s, entries, 0, seq![',', ' '], Seq::empty());
            let (b, s2) = node_text(s1, *block);
            match length {
                Some(l) => {
                    let (t, s3) = node_text(s2, *l);
                    (seq!['['] + e + b + seq!['-', '>', ' '] + t + seq![']'], s3)
                },
                None => (seq!['['] + e + b + seq![']'], s2),
            }
        },
    }
}

/// The texts of the nodes from index `i` on, each followed by `sep`, behind
/// `acc`.
pub open spec fn nodes_text(
    s: MachineModel,
    ns: Seq<NodeModel>,
    i: int,
    sep: Seq<char>,
    acc: Seq<char>,
) -> (Seq<char>, MachineModel)
    decreases ns, 0nat, ns.len() - i,
{
    if i < 0 || i >= ns.len() {
        (acc, s)
    } else {
        let (t, s1) = node_text(s, ns[i]);
        nodes_text(s1, ns, i + 1, sep, acc + t + sep)
    }
}

fn show_nodes(ctx: &mut Machine, ns: &Vec<Node>, sep: &Vec<char>) -> (r: Vec<char>)
    ensures
        (r@, final(ctx).model()) == nodes_text(
            old(ctx).model(),
            nodes_model(ns@),
            0,
            sep@,
            Seq::empty(),
        ),
        final(ctx).fuel == old(ctx).fuel,
        frames_kept(old(ctx).model(), final(ctx).model()),
    decreases *ns, 0nat,
{
    let mut acc: Vec<char> = Vec::new();
    let mut i: usize = 0;
    while i < ns.len()
        invariant
            i <= ns.len(),
            nodes_text(old(ctx).model(), nodes_model(ns@), 0, sep@, Seq::empty()) == nodes_text(
                ctx.model(),
                nodes_model(ns@),
                i as int,
                sep@,
                acc@,
            ),
            ctx.fuel == old(ctx).fuel,
            frames_kept(old(ctx).model(), ctx.model()),
        decreases ns.len() - i,
    {
        let t = show_node(ctx, &ns[i]);
        append_chars(&mut acc, &t);
        append_chars(&mut acc, sep);
        i += 1;
    }
    acc
}

/// The text of a node.
pub fn show_node(ctx: &mut Machine, n: &Node) -> (r: Vec<char>)
    ensures
        (r@, final(ctx).model()) == node_text(old(ctx).model(), node_model(*n)),
        final(ctx).fuel == old(ctx).fuel,
        frames_kept(old(ctx).model(), final(ctx).model()),
    decreases *n, 1nat,
{
    proof {
        lemma_node_model(*n);
    }
    let none: Vec<char> = Vec::new();
    match n {
        Node::Op(symbol, left, right) => {
            let mut out = show_nodes(ctx, left, &none);
            let r = show_nodes(ctx, right, &none);
            append_chars(&mut out, &chars_of(symbol.as_str()));
            out.push(' ');
            append_chars(&mut out, &r);
            assert(out@ =~= nodes_text(
                old(ctx).model(),
                nodes_model(left@),
                0,
                Seq::empty(),
                Seq::empty(),
            ).0 + symbol@ + seq![' '] + r@);
            out
        },
        Node::String(t) => {
            let mut out: Vec<char> = Vec::new();
            out.push('"');
            append_chars(&mut out, &chars_of(t.as_str()));
            out.push('"');
            out.push(' ');
            assert(out@ =~= seq!['"'] + t@ + seq!['"', ' ']);
            out
        },
        Node::CmpString(t, c) => match decompress(t.as_str(), *c == '\'', &ctx.dictionary) {
            Some(w) => {
                let mut out: Vec<char> = Vec::new();
                out.push('"');
                append_chars(&mut out, &chars_of(w.as_str()));
                out.push('"');
                assert(out@ =~= seq!['"'] + w@ + seq!['"']);
                out
            },
            None => {
                ctx.fail(ErrorKind::MissingWord, t.clone());
                Vec::new()
            },
        },
        Node::Number(x) => {
            let t = format_number(ctx, x);
            let mut out = chars_of(t.as_str());
            out.push(' ');
            out
        },
        Node::Variable(v) => {
            let mut out = chars_of(v.as_str());
            out.push(' ');
            out
        },
        Node::Group(body) => {
            let b = show_nodes(ctx, body, &none);
            let mut out: Vec<char> = Vec::new();
            out.push('(');
            append_chars(&mut out, &b);
            out.push(')');
            assert(out@ =~= seq!['('] + b@ + seq![')']);
            out
        },
        Node::Block(body, name) => {
            let b = show_nodes(ctx, body, &none);
            let mut out: Vec<char> = match name {
                Some(x) => chars_of(x.as_str()),
                None => Vec::new(),
            };
            let ghost head = out@;
            out.push('{');
            append_chars(&mut out, &b);
            out.push('}');
            out.push(' ');
            assert(out@ =~= head + seq!['{'] + b@ + seq!['}', ' ']);
            out
        },
        Node::Sequence(entries, block, length) => {
            let mut sep: Vec<char> = Vec::new();
            sep.push(',');
            sep.push(' ');
            assert(sep@ =~= seq![',', ' ']);
            let e = show_nodes(ctx, entries, &sep);
            let b = show_node(ctx, block);
            let mut out: Vec<char> = Vec::new();
            out.push('[');
            append_chars(&mut out, &e);
            append_chars(&mut out, &b);
            match length {
                Some(l) => {
                    let t = show_node(ctx, l);
                    out.push('-');
                    out.push('>');
                    out.push(' ');
                    append_chars(&mut out, &t);
                    out.push(']');
                    assert(out@ =~= seq!['['] + e@ + b@ + seq!['-', '>', ' '] + t@ + seq![']']);
                },
                None => {
                    out.push(']');
                    assert(out@ =~= seq!['['] + e@ + b@ + seq![']']);
                },
            }
            out
        },
    }
}

} // verus!
