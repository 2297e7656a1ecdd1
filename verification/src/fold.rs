//! The fold operator and the grouping of adjacent entries.

use crate::build_ast;
use crate::build_ast_spec;
use crate::control::{map_block, map_seq};
use crate::eval::{
    array_from, bool_of, collect, collect_seq, eval_node, literal_bool, parse_node, seq_next,
    seq_step,
};
use crate::machine::{
    cur_env, ErrorKind, fail, frames_kept, Machine, MachineModel, pop_env, push_env,
};
use crate::seqops::{eval_array, parse_array};
use crate::show::{node_text, show_node};
use crate::text::{append_chars, chars_of, string_of, trim_white, trimmed};
use crate::tokens::{clone_nodes, lemma_node_model, node_model, nodes_model, Node, NodeModel};
use crate::types::{
    dyn_model, Dynamic, dyns_model, push_value, seq_model, Sequence, SequenceModel, ValModel,
};
use crate::values::{array_of, literal_of, replace_spec, traverse_replace, trim_end};
use vstd::prelude::*;

verus! {

/// The block of a fold expression and what is left of the expression. The
/// block is looked for at the end of the expression: in the last right
/// operand of an operator, and there again. Where it stood, `_` stands in
/// what is left.
pub open spec fn grab_block(fold: NodeModel) -> (Option<NodeModel>, NodeModel)
    decreases fold,
{
    match fold {
        NodeModel::Op(symbol, left, right) => if right.len() == 0 {
            (None, fold)
        } else {
            let (b, rest) = grab_block(right.last());
            (b, NodeModel::Op(symbol, left, right.update(right.len() - 1, rest)))
        },
        NodeModel::Block(_, _) => (Some(fold), NodeModel::Variable(seq!['_'])),
        _ => (None, fold),
    }
}

/// The text without the characters `c` at its start.
pub open spec fn trim_start(t: Seq<char>, c: char) -> Seq<char>
    decreases t.len(),
{
    if t.len() > 0 && t[0] == c {
        trim_start(t.skip(1), c)
    } else {
        t
    }
}

/// The text without the characters `c` at its ends.
pub open spec fn trim_both(t: Seq<char>, c: char) -> Seq<char> {
    trim_start(trim_end(t, c), c)
}

/// The program that a fold builds: the literals of the values from index
/// `i` on, with the separator between them, behind `acc`.
pub open spec fn fold_program(
    s: MachineModel,
    items: Seq<ValModel>,
    sep: Seq<char>,
    i: int,
    acc: Seq<char>,
) -> (Seq<char>, MachineModel)
    decreases items.len() - i,
{
    if i < 0 || i >= items.len() {
        (acc, s)
    } else {
        match literal_of(items[i]) {
            None => (acc, fail(s, ErrorKind::NoLiteral, Seq::empty())),
            Some(n) => {
                let (t, s1) = node_text(s, n);
                fold_program(
                    s1,
                    items,
                    sep,
                    i + 1,
                    if i == 0 {
                        acc + t
                    } else {
                        acc + sep + t
                    },
                )
            },
        }
    }
}

/// `\`: the fold of the right operand by the left one. A block in the left
/// operand is evaluated for each entry first. If nothing but the block is
/// there, the values are the result. Otherwise what is left of the operand
/// is written out, its text without the `_` at its ends is put between the
/// literals of the values, and the program so built is evaluated.
pub open spec fn op_fold(d: nat, s: MachineModel, left: NodeModel, right: NodeModel) -> (
    ValModel,
    MachineModel,
)
    decreases d, 60nat, 0nat,
{
    let (q, s1) = eval_array(d, s, right);
    let (block, rest) = grab_block(left);
    let (items, s2) = match block {
        Some(b) => {
            let (items, s2) = map_block(d, push_env(s1, cur_env(s1)), q, b, Seq::empty());
            (items, pop_env(s2).1)
        },
        None => collect(d, s1, q, Seq::empty()),
    };
    if rest == NodeModel::Variable(seq!['_']) {
        (array_of(items), s2)
    } else {
        let (constructed, s3) = node_text(s2, rest);
        let sep = trim_both(trimmed(constructed), '_');
        let (program, s4) = fold_program(s3, items, sep, 0, Seq::empty());
        match build_ast_spec(program) {
            Ok(nodes) => if nodes.len() > 0 {
                eval_node(d, s4, nodes[0])
            } else {
                (ValModel::Empty, fail(s4, ErrorKind::Syntax, program))
            },
            Err(_) => (ValModel::Empty, fail(s4, ErrorKind::Syntax, program)),
        }
    }
}

/// The sequence of the sequences that the groups make.
pub open spec fn nested(groups: Seq<Seq<ValModel>>) -> ValModel {
    array_of(Seq::new(groups.len(), |i: int| array_of(groups[i])))
}

/// The groups with one more entry: it joins the group of the entry before
/// it if the test is true for the two, and starts a new group if not. In the
/// test the first `_` stands for the entry and the second for the entry
/// before it.
pub open spec fn join_group(
    d: nat,
    s: MachineModel,
    test: NodeModel,
    groups: Seq<Seq<ValModel>>,
    e: ValModel,
) -> (Seq<Seq<ValModel>>, MachineModel)
    decreases d, 56nat, 0nat,
{
    if groups.len() == 0 || groups.last().len() == 0 {
        (groups.push(seq![e]), s)
    } else {
        match (literal_of(groups.last().last()), literal_of(e)) {
            (Some(a), Some(b)) => match replace_spec(seq![a, b], test) {
                Some((block, _)) => {
                    let (v, s2) = eval_node(d, s, block);
                    let (same, s3) = literal_bool(d, s2, v);
                    (
                        if same {
                            groups.update(groups.len() - 1, groups.last().push(e))
                        } else {
                            groups.push(seq![e])
                        },
                        s3,
                    )
                },
                None => (groups, fail(s, ErrorKind::TooFewEntries, Seq::empty())),
            },
            _ => (groups, fail(s, ErrorKind::NoLiteral, Seq::empty())),
        }
    }
}

/// The groups of adjacent entries of a walk, behind `groups`.
pub open spec fn adjacent(
    d: nat,
    s: MachineModel,
    q: SequenceModel,
    test: NodeModel,
    groups: Seq<Seq<ValModel>>,
) -> (Seq<Seq<ValModel>>, MachineModel)
    decreases d, 57nat, s.fuel,
{
    let (x, q1, s1) = seq_next(d, s, q);
    match x {
        None => (groups, s1),
        Some(e) => {
            let (g, s2) = join_group(d, s1, test, groups, e);
            if s2.fuel < s.fuel {
                adjacent(d, s2, q1, test, g)
            } else {
                (g, s2)
            }
        },
    }
}

/// `::`: the entries of the left operand in groups of adjacent entries for
/// which the right operand is true.
pub open spec fn op_adjacent(d: nat, s: MachineModel, left: NodeModel, right: NodeModel) -> (
    ValModel,
    MachineModel,
)
    decreases d, 60nat, 0nat,
{
    let (q, s1) = eval_array(d, s, left);
    let (groups, s2) = adjacent(d, s1, q, right, Seq::empty());
    (nested(groups), s2)
}

/// The models of a run of groups.
pub open spec fn groups_model(g: Seq<Vec<Dynamic>>) -> Seq<Seq<ValModel>> {
    Seq::new(g.len(), |i: int| dyns_model(g[i]@))
}

/// The sequence of the sequences that the groups make.
pub fn nested_from(groups: &Vec<Vec<Dynamic>>) -> (r: Dynamic)
    ensures
        dyn_model(r) == nested(groups_model(groups@)),
{
    let mut out: Vec<Dynamic> = Vec::new();
    let mut i: usize = 0;
    while i < groups.len()
        invariant
            i <= groups.len(),
            dyns_model(out@) =~= Seq::new(i as nat, |k: int| array_of(groups_model(groups@)[k])),
        decreases groups.len() - i,
    {
        push_value(&mut out, array_from(crate::types::clone_dyns(&groups[i])));
        i += 1;
    }
    array_from(out)
}

/// The block of a fold expression and what is left of the expression.
pub fn grab_block_from_fold(fold: &Node) -> (r: (Option<Node>, Node))
    ensures
        (
            match r.0 {
                Some(b) => Some(node_model(b)),
                None => None,
            },
            node_model(r.1),
        ) == grab_block(node_model(*fold)),
    decreases *fold,
{
    proof {
        lemma_node_model(*fold);
    }
    match fold {
        Node::Op(symbol, left, right) => {
            let n = right.len();
            if n == 0 {
                (None, fold.clone())
            } else {
                let (b, rest) = grab_block_from_fold(&right[n - 1]);
                let mut r = clone_nodes(right);
                let ghost before = nodes_model(r@);
                r[n - 1] = rest;
                assert(nodes_model(r@) =~= nodes_model(right@).update(n - 1, node_model(rest)));
                let node = Node::Op(symbol.clone(), clone_nodes(left), r);
                proof {
                    lemma_node_model(node);
                }
                (b, node)
            }
        },
        Node::Block(_, _) => {
            let mut v: Vec<char> = Vec::new();
            v.push('_');
            assert(v@ =~= seq!['_']);
            (Some(fold.clone()), Node::Variable(string_of(&v)))
        },
        _ => (None, fold.clone()),
    }
}

fn is_placeholder(n: &Node) -> (r: bool)
    ensures
        r == (node_model(*n) == NodeModel::Variable(seq!['_'])),
{
    match n {
        Node::Variable(v) => {
            let c = chars_of(v.as_str());
            if c.len() == 1 && c[0] == '_' {
                assert(c@ =~= seq!['_']);
                true
            } else {
                assert(seq!['_'].len() == 1 && seq!['_'][0] == '_');
                false
            }
        },
        _ => false,
    }
}

/// The text without the characters `c` at its ends.
pub fn trim_chars(t: &Vec<char>, c: char) -> (r: Vec<char>)
    ensures
        r@ == trim_both(t@, c),
{
    let mut end: usize = t.len();
    assert(t@.take(end as int) =~= t@);
    while end > 0 && t[end - 1] == c
        invariant
            end <= t.len(),
            trim_end(t@, c) == trim_end(t@.take(end as int), c),
        decreases end,
    {
        assert(t@.take(end as int).drop_last() =~= t@.take(end - 1));
        end -= 1;
    }
    let ghost mid = t@.take(end as int);
    assert(trim_end(t@, c) == mid);
    let mut start: usize = 0;
    assert(mid.skip(0) =~= mid);
    while start < end && t[start] == c
        invariant
            start <= end <= t.len(),
            mid == t@.take(end as int),
            trim_start(mid, c) == trim_start(mid.skip(start as int), c),
        decreases end - start,
    {
        assert(mid.skip(start as int).skip(1) =~= mid.skip(start + 1));
        start += 1;
    }
    let mut out: Vec<char> = Vec::new();
    let mut i: usize = start;
    while i < end
        invariant
            start <= i <= end <= t.len(),
            out@ =~= t@.subrange(start as int, i as int),
        decreases end - i,
    {
        out.push(t[i]);
        i += 1;
    }
    assert(t@.subrange(start as int, end as int) =~= mid.skip(start as int));
    out
}

fn build_program(ctx: &mut Machine, items: &Vec<Dynamic>, sep: &Vec<char>) -> (r: Vec<char>)
    ensures
        (r@, final(ctx).model()) == fold_program(
            old(ctx).model(),
            dyns_model(items@),
            sep@,
            0,
            Seq::empty(),
        ),
        final(ctx).fuel == old(ctx).fuel,
        frames_kept(old(ctx).model(), final(ctx).model()),
{
    let mut acc: Vec<char> = Vec::new();
    let mut i: usize = 0;
    while i < items.len()
        invariant
            i <= items.len(),
            fold_program(old(ctx).model(), dyns_model(items@), sep@, 0, Seq::empty())
                == fold_program(ctx.model(), dyns_model(items@), sep@, i as int, acc@),
            ctx.fuel == old(ctx).fuel,
            frames_kept(old(ctx).model(), ctx.model()),
        decreases items.len() - i,
    {
        match items[i].into_node() {
            None => {
                ctx.fail(ErrorKind::NoLiteral, String::new());
                return acc;
            },
            Some(n) => {
                let t = show_node(ctx, &n);
                if i > 0 {
                    append_chars(&mut acc, sep);
                }
                append_chars(&mut acc, &t);
            },
        }
        i += 1;
    }
    acc
}

/// Evaluates the operator that [`op_fold`] describes.
pub fn do_fold(ctx: &mut Machine, depth: usize, left: &Node, right: &Node) -> (r: Dynamic)
    ensures
        (dyn_model(r), final(ctx).model()) == op_fold(
            depth as nat,
            old(ctx).model(),
            node_model(*left),
            node_model(*right),
        ),
        final(ctx).fuel <= old(ctx).fuel,
        frames_kept(old(ctx).model(), final(ctx).model()),
    decreases depth, 60nat, 0nat,
{
    let q = parse_array(ctx, depth, right);
    let (block, rest) = grab_block_from_fold(left);
    let items = match &block {
        Some(b) => {
            let child = ctx.current();
            ctx.push_env(child);
            let items = map_seq(ctx, depth, q, b);
            ctx.pop_env();
            items
        },
        None => collect_seq(ctx, depth, q),
    };
    if is_placeholder(&rest) {
        array_from(items)
    } else {
        let constructed = string_of(&show_node(ctx, &rest));
        let sep = trim_chars(&trim_white(&chars_of(constructed.as_str())), '_');
        let program = string_of(&build_program(ctx, &items, &sep));
        match build_ast(program.as_str()) {
            Ok(nodes) => {
                if nodes.len() > 0 {
                    parse_node(ctx, depth, &nodes[0])
                } else {
                    ctx.fail(ErrorKind::Syntax, program);
                    Dynamic::empty()
                }
            },
            Err(_) => {
                ctx.fail(ErrorKind::Syntax, program);
                Dynamic::empty()
            },
        }
    }
}

fn push_group(groups: &mut Vec<Vec<Dynamic>>, e: Dynamic)
    ensures
        groups_model(final(groups)@) == groups_model(old(groups)@).push(seq![dyn_model(e)]),
{
    let mut g: Vec<Dynamic> = Vec::new();
    push_value(&mut g, e);
    assert(dyns_model(g@) =~= seq![dyn_model(e)]);
    groups.push(g);
    assert(groups_model(groups@) =~= groups_model(old(groups)@).push(seq![dyn_model(e)]));
}

fn push_to_last(groups: &mut Vec<Vec<Dynamic>>, e: Dynamic)
    requires
        old(groups)@.len() > 0,
    ensures
        groups_model(final(groups)@) == groups_model(old(groups)@).update(
            old(groups)@.len() - 1,
            groups_model(old(groups)@).last().push(dyn_model(e)),
        ),
{
    let ghost before = groups_model(groups@);
    let mut g = match groups.pop() {
        Some(g) => g,
        None => Vec::new(),
    };
    push_value(&mut g, e);
    groups.push(g);
    assert(groups_model(groups@) =~= before.update(
        before.len() - 1,
        before.last().push(dyn_model(e)),
    ));
}

fn join_entry(
    ctx: &mut Machine,
    depth: usize,
    test: &Node,
    groups: &mut Vec<Vec<Dynamic>>,
    e: Dynamic,
)
    ensures
        (groups_model(final(groups)@), final(ctx).model()) == join_group(
            depth as nat,
            old(ctx).model(),
            node_model(*test),
            groups_model(old(groups)@),
            dyn_model(e),
        ),
        final(ctx).fuel <= old(ctx).fuel,
        frames_kept(old(ctx).model(), final(ctx).model()),
    decreases depth, 56nat, 0nat,
{
    let n = groups.len();
    if n == 0 || groups[n - 1].len() == 0 {
        push_group(groups, e);
        return ;
    }
    let m = groups[n - 1].len();
    assert(groups_model(groups@).last().last() == dyn_model(groups@[n - 1]@[m - 1]));
    let a = groups[n - 1][m - 1].into_node();
    let b = e.into_node();
    match (a, b) {
        (Some(a), Some(b)) => {
            let mut vals: Vec<Node> = Vec::new();
            vals.push(a);
            vals.push(b);
            assert(nodes_model(vals@) =~= seq![node_model(a), node_model(b)]);
            match traverse_replace(&mut vals, test) {
                Some(block) => {
                    let v = parse_node(ctx, depth, &block);
                    if bool_of(ctx, depth, &v) {
                        push_to_last(groups, e);
                    } else {
                        push_group(groups, e);
                    }
                },
                None => {
                    ctx.fail(ErrorKind::TooFewEntries, String::new());
                },
            }
        },
        _ => {
            ctx.fail(ErrorKind::NoLiteral, String::new());
        },
    }
}

/// The groups of adjacent entries of a walk for which a test is true.
pub fn group_adjacent(ctx: &mut Machine, depth: usize, seq: Sequence, test: &Node) -> (r: Vec<
    Vec<Dynamic>,
>)
    ensures
        (groups_model(r@), final(ctx).model()) == adjacent(
            depth as nat,
            old(ctx).model(),
            seq_model(seq),
            node_model(*test),
            Seq::empty(),
        ),
        final(ctx).fuel <= old(ctx).fuel,
        frames_kept(old(ctx).model(), final(ctx).model()),
    decreases depth, 57nat, 0nat,
{
    let mut q = seq;
    let mut groups: Vec<Vec<Dynamic>> = Vec::new();
    assert(groups_model(groups@) =~= Seq::<Seq<ValModel>>::empty());
    loop
        invariant
            adjacent(
                depth as nat,
                old(ctx).model(),
                seq_model(seq),
                node_model(*test),
                Seq::empty(),
            ) == adjacent(
                depth as nat,
                ctx.model(),
                seq_model(q),
                node_model(*test),
                groups_model(groups@),
            ),
            ctx.fuel <= old(ctx).fuel,
            frames_kept(old(ctx).model(), ctx.model()),
        decreases ctx.fuel,
    {
        match seq_step(ctx, depth, &mut q) {
            None => {
                return groups;
            },
            Some(e) => {
                join_entry(ctx, depth, test, &mut groups, e);
            },
        }
    }
}

/// Evaluates the operator that [`op_adjacent`] describes.
pub fn do_adjacent(ctx: &mut Machine, depth: usize, left: &Node, right: &Node) -> (r: Dynamic)
    ensures
        (dyn_model(r), final(ctx).model()) == op_adjacent(
            depth as nat,
            old(ctx).model(),
            node_model(*left),
            node_model(*right),
        ),
        final(ctx).fuel <= old(ctx).fuel,
        frames_kept(old(ctx).model(), final(ctx).model()),
    decreases depth, 60nat, 0nat,
{
    let q = parse_array(ctx, depth, left);
    nested_from(&group_adjacent(ctx, depth, q, right))
}

} // verus!
