//! The operators that evaluate a block for each value they are given:
//! binding, mapping, filtering, repeating, looping, grouping, folding, and
//! the definition and call of names.

use crate::eval::{
    array_from, attempt_call, bool_of, call_name, count_of, eval_node, eval_uniq, get_var,
    literal_bool, literal_num, num_of, number_count, param_name, parse_node, parse_node_uniq,
    seq_next, seq_step, underscore, value_of,
};
use crate::machine::{
    bind, cur_env, frames_kept, Machine, MachineModel, pop_env, push_env, spend, under_env,
};
use crate::num::{decimal, num_of_usize};
use crate::seqops::{eval_array, parse_array};
use crate::show::{node_text, show_node};
use crate::text::{string_of, trim_str, trimmed};
use crate::tokens::{lemma_node_model, node_model, Node, NodeModel};
use crate::types::{
    Binding, BindingModel, dyn_model, Dynamic, dyns_model, push_value, seq_model, Sequence,
    SequenceModel, ValModel,
};
use crate::values::array_of;
use vstd::prelude::*;

verus! {

/// The state in which the parameter of a block stands for a value in the
/// innermost frame. What is no block has the parameter `_`.
pub open spec fn bind_param(s: MachineModel, node: NodeModel, v: ValModel) -> MachineModel {
    match node {
        NodeModel::Block(_, name) => bind(s, trimmed(param_name(name)), BindingModel::Value(v)),
        _ => bind(s, trimmed(underscore()), BindingModel::Value(v)),
    }
}

/// The value of a block for an argument, in the innermost frame.
pub open spec fn apply_block(d: nat, s: MachineModel, node: NodeModel, v: ValModel) -> (
    ValModel,
    MachineModel,
)
    decreases d, 50nat, 0nat,
{
    eval_uniq(d, bind_param(s, node, v), node)
}

/// `&`: the right operand evaluated for the value of the left one.
pub open spec fn op_bind(d: nat, s: MachineModel, left: NodeModel, right: NodeModel) -> (
    ValModel,
    MachineModel,
)
    decreases d, 60nat, 0nat,
{
    let (l, s1) = eval_node(d, s, left);
    let (v, s2) = apply_block(d, push_env(s1, cur_env(s1)), right, l);
    (v, pop_env(s2).1)
}

/// The values of a block for the entries of a walk, behind `acc`.
pub open spec fn map_block(
    d: nat,
    s: MachineModel,
    q: SequenceModel,
    node: NodeModel,
    acc: Seq<ValModel>,
) -> (Seq<ValModel>, MachineModel)
    decreases d, 57nat, s.fuel,
{
    let (x, q1, s1) = seq_next(d, s, q);
    match x {
        None => (acc, s1),
        Some(e) => {
            let (v, s2) = apply_block(d, s1, node, e);
            if s2.fuel < s.fuel {
                map_block(d, s2, q1, node, acc.push(v))
            } else {
                (acc, s2)
            }
        },
    }
}

/// `@`: the right operand evaluated for each entry of the left one.
pub open spec fn op_map(d: nat, s: MachineModel, left: NodeModel, right: NodeModel) -> (
    ValModel,
    MachineModel,
)
    decreases d, 60nat, 0nat,
{
    let (q, s1) = eval_array(d, s, left);
    let (items, s2) = map_block(d, push_env(s1, cur_env(s1)), q, right, Seq::empty());
    (array_of(items), pop_env(s2).1)
}

/// The entries of a walk for which a block is true, behind `acc`.
pub open spec fn filter_block(
    d: nat,
    s: MachineModel,
    q: SequenceModel,
    node: NodeModel,
    acc: Seq<ValModel>,
) -> (Seq<ValModel>, MachineModel)
    decreases d, 57nat, s.fuel,
{
    let (x, q1, s1) = seq_next(d, s, q);
    match x {
        None => (acc, s1),
        Some(e) => {
            let (v, s2) = apply_block(d, s1, node, e);
            let (keep, s3) = literal_bool(d, s2, v);
            if s3.fuel < s.fuel {
                filter_block(
                    d,
                    s3,
                    q1,
                    node,
                    if keep {
                        acc.push(e)
                    } else {
                        acc
                    },
                )
            } else {
                (acc, s3)
            }
        },
    }
}

/// The entries of the second operand for which the first one is true.
pub open spec fn eval_filter(d: nat, s: MachineModel, block: NodeModel, items: NodeModel) -> (
    Seq<ValModel>,
    MachineModel,
)
    decreases d, 58nat, 0nat,
{
    let (q, s1) = eval_array(d, s, items);
    let (kept, s2) = filter_block(d, push_env(s1, cur_env(s1)), q, block, Seq::empty());
    (kept, pop_env(s2).1)
}

/// `$`: the entries for which the block is true.
pub open spec fn op_filter(d: nat, s: MachineModel, block: NodeModel, items: NodeModel) -> (
    ValModel,
    MachineModel,
)
    decreases d, 60nat, 0nat,
{
    let (kept, s1) = eval_filter(d, s, block, items);
    (array_of(kept), s1)
}

/// `$:`: whether the block is true for some entry.
pub open spec fn op_any(d: nat, s: MachineModel, block: NodeModel, items: NodeModel) -> (
    ValModel,
    MachineModel,
)
    decreases d, 60nat, 0nat,
{
    let (kept, s1) = eval_filter(d, s, block, items);
    (ValModel::Boolean(kept.len() > 0), s1)
}

/// `/:`: the number of entries for which the block is true.
pub open spec fn op_count(d: nat, s: MachineModel, block: NodeModel, items: NodeModel) -> (
    ValModel,
    MachineModel,
)
    decreases d, 60nat, 0nat,
{
    let (kept, s1) = eval_filter(d, s, block, items);
    (ValModel::Number(decimal(kept.len())), s1)
}

/// A block applied `n` times, each time to the value before.
pub open spec fn repeat_block(d: nat, s: MachineModel, node: NodeModel, v: ValModel, n: nat) -> (
    ValModel,
    MachineModel,
)
    decreases d, 57nat, n,
{
    if n == 0 {
        (v, s)
    } else {
        let (r, s1) = apply_block(d, s, node, v);
        repeat_block(d, s1, node, r, (n - 1) as nat)
    }
}

/// `&.`: the block applied to the start value as often as the count says.
pub open spec fn op_repeat(
    d: nat,
    s: MachineModel,
    block: NodeModel,
    start: NodeModel,
    times: NodeModel,
) -> (ValModel, MachineModel)
    decreases d, 60nat, 0nat,
{
    let (v, s1) = eval_node(d, s, start);
    let (t, s2) = eval_node(d, s1, times);
    let (n, s3) = literal_num(d, s2, t);
    let (c, s4) = count_of(s3, n);
    let (r, s5) = repeat_block(d, push_env(s4, cur_env(s4)), block, v, c as nat);
    (r, pop_env(s5).1)
}

/// The loop of `:`. The condition is evaluated for the value so far in a
/// new copy of the frame around the loop; while it is true, a step is paid
/// and the body is evaluated for the value so far in the frame of the loop.
pub open spec fn do_while(
    d: nat,
    s: MachineModel,
    body: NodeModel,
    test: NodeModel,
    v: ValModel,
) -> (ValModel, MachineModel)
    decreases d, 57nat, s.fuel,
{
    let (c, s1) = apply_block(d, push_env(s, under_env(s)), test, v);
    let (go, s2) = literal_bool(d, s1, c);
    let s3 = spend(pop_env(s2).1);
    if !go || s3.stopped is Some {
        (v, s3)
    } else {
        let (r, s4) = apply_block(d, s3, body, v);
        if s4.fuel < s.fuel {
            do_while(d, s4, body, test, r)
        } else {
            (r, s4)
        }
    }
}

/// `:`: the left operand is evaluated, and again for its own value as long
/// as the right operand is true for that value.
pub open spec fn op_do_while(d: nat, s: MachineModel, left: NodeModel, right: NodeModel) -> (
    ValModel,
    MachineModel,
)
    decreases d, 60nat, 0nat,
{
    let s1 = push_env(s, cur_env(s));
    let s2 = match left {
        NodeModel::Block(_, name) => {
            let (v, s2) = get_var(d, s1, underscore());
            bind(s2, trimmed(param_name(name)), BindingModel::Value(v))
        },
        _ => s1,
    };
    let (first, s3) = eval_uniq(d, s2, left);
    let (r, s4) = do_while(d, s3, left, right, first);
    (r, pop_env(s4).1)
}

/// `??`: the left operand, or, if the first right operand is true, the
/// second right operand evaluated for the left one.
pub open spec fn op_conditional(
    d: nat,
    s: MachineModel,
    left: NodeModel,
    test: NodeModel,
    then: NodeModel,
) -> (ValModel, MachineModel)
    decreases d, 60nat, 0nat,
{
    let (v, s1) = eval_node(d, s, left);
    let (c, s2) = eval_node(d, s1, test);
    let (go, s3) = literal_bool(d, s2, c);
    if go {
        let (r, s4) = eval_node(d, bind_param(push_env(s3, cur_env(s3)), then, v), then);
        (r, pop_env(s4).1)
    } else {
        (v, s3)
    }
}

/// `:=`: the name that the left operand's text gives stands for the right
/// operand as a function from then on.
pub open spec fn op_define(s: MachineModel, left: NodeModel, right: NodeModel) -> (
    ValModel,
    MachineModel,
) {
    let (name, s1) = node_text(s, left);
    (ValModel::Boolean(false), bind(s1, trimmed(name), BindingModel::Function(right)))
}

/// `.`: what the name that the right operand's text gives yields for the
/// left operand.
pub open spec fn op_call(d: nat, s: MachineModel, left: NodeModel, right: NodeModel) -> (
    ValModel,
    MachineModel,
)
    decreases d, 60nat, 0nat,
{
    let (name, s1) = node_text(s, right);
    let (arg, s2) = eval_node(d, s1, left);
    call_name(d, s2, trimmed(name), arg)
}

fn bind_parameter(ctx: &mut Machine, node: &Node, v: Dynamic)
    ensures
        final(ctx).model() == bind_param(old(ctx).model(), node_model(*node), dyn_model(v)),
        final(ctx).fuel == old(ctx).fuel,
        frames_kept(old(ctx).model(), final(ctx).model()),
{
    proof {
        lemma_node_model(*node);
    }
    match node {
        Node::Block(_, name) => match name {
            Some(n) => ctx.define_var(n.as_str(), v),
            None => ctx.define_var("_", v),
        },
        _ => ctx.define_var("_", v),
    }
}

/// The value of a block for an argument, in the innermost frame.
pub fn apply(ctx: &mut Machine, depth: usize, node: &Node, v: Dynamic) -> (r: Dynamic)
    ensures
        (dyn_model(r), final(ctx).model()) == apply_block(
            depth as nat,
            old(ctx).model(),
            node_model(*node),
            dyn_model(v),
        ),
        final(ctx).fuel <= old(ctx).fuel,
        frames_kept(old(ctx).model(), final(ctx).model()),
    decreases depth, 50nat, 0nat,
{
    bind_parameter(ctx, node, v);
    parse_node_uniq(ctx, depth, node)
}

/// Evaluates the operator that [`op_bind`] describes.
pub fn do_bind(ctx: &mut Machine, depth: usize, left: &Node, right: &Node) -> (r: Dynamic)
    ensures
        (dyn_model(r), final(ctx).model()) == op_bind(
            depth as nat,
            old(ctx).model(),
            node_model(*left),
            node_model(*right),
        ),
        final(ctx).fuel <= old(ctx).fuel,
        frames_kept(old(ctx).model(), final(ctx).model()),
    decreases depth, 60nat, 0nat,
{
    let l = parse_node(ctx, depth, left);
    let child = ctx.current();
    ctx.push_env(child);
    let v = apply(ctx, depth, right, l);
    ctx.pop_env();
    v
}

/// The values of a block for the entries of a walk.
pub fn map_seq(ctx: &mut Machine, depth: usize, seq: Sequence, node: &Node) -> (r: Vec<Dynamic>)
    ensures
        (dyns_model(r@), final(ctx).model()) == map_block(
            depth as nat,
            old(ctx).model(),
            seq_model(seq),
            node_model(*node),
            Seq::empty(),
        ),
        final(ctx).fuel <= old(ctx).fuel,
        frames_kept(old(ctx).model(), final(ctx).model()),
    decreases depth, 57nat, 0nat,
{
    let mut q = seq;
    let mut acc: Vec<Dynamic> = Vec::new();
    assert(dyns_model(acc@) =~= Seq::<ValModel>::empty());
    loop
        invariant
            map_block(
                depth as nat,
                old(ctx).model(),
                seq_model(seq),
                node_model(*node),
                Seq::empty(),
            ) == map_block(
                depth as nat,
                ctx.model(),
                seq_model(q),
                node_model(*node),
                dyns_model(acc@),
            ),
            ctx.fuel <= old(ctx).fuel,
            frames_kept(old(ctx).model(), ctx.model()),
        decreases ctx.fuel,
    {
        match seq_step(ctx, depth, &mut q) {
            None => {
                return acc;
            },
            Some(e) => {
                let v = apply(ctx, depth, node, e);
                push_value(&mut acc, v);
            },
        }
    }
}

/// Evaluates the operator that [`op_map`] describes.
pub fn do_map(ctx: &mut Machine, depth: usize, left: &Node, right: &Node) -> (r: Dynamic)
    ensures
        (dyn_model(r), final(ctx).model()) == op_map(
            depth as nat,
            old(ctx).model(),
            node_model(*left),
            node_model(*right),
        ),
        final(ctx).fuel <= old(ctx).fuel,
        frames_kept(old(ctx).model(), final(ctx).model()),
    decreases depth, 60nat, 0nat,
{
    let q = parse_array(ctx, depth, left);
    let child = ctx.current();
    ctx.push_env(child);
    let items = map_seq(ctx, depth, q, right);
    ctx.pop_env();
    array_from(items)
}

/// The entries of a walk for which a block is true.
pub fn filter_seq(ctx: &mut Machine, depth: usize, seq: Sequence, node: &Node) -> (r: Vec<
    Dynamic,
>)
    ensures
        (dyns_model(r@), final(ctx).model()) == filter_block(
            depth as nat,
            old(ctx).model(),
            seq_model(seq),
            node_model(*node),
            Seq::empty(),
        ),
        final(ctx).fuel <= old(ctx).fuel,
        frames_kept(old(ctx).model(), final(ctx).model()),
    decreases depth, 57nat, 0nat,
{
    let mut q = seq;
    let mut acc: Vec<Dynamic> = Vec::new();
    assert(dyns_model(acc@) =~= Seq::<ValModel>::empty());
    loop
        invariant
            filter_block(
                depth as nat,
                old(ctx).model(),
                seq_model(seq),
                node_model(*node),
                Seq::empty(),
            ) == filter_block(
                depth as nat,
                ctx.model(),
                seq_model(q),
                node_model(*node),
                dyns_model(acc@),
            ),
            ctx.fuel <= old(ctx).fuel,
            frames_kept(old(ctx).model(), ctx.model()),
        decreases ctx.fuel,
    {
        match seq_step(ctx, depth, &mut q) {
            None => {
                return acc;
            },
            Some(e) => {
                let v = apply(ctx, depth, node, e.clone());
                if bool_of(ctx, depth, &v) {
                    push_value(&mut acc, e);
                }
            },
        }
    }
}

/// The entries of the second operand for which the first one is true.
pub fn parse_filter(ctx: &mut Machine, depth: usize, block: &Node, items: &Node) -> (r: Vec<
    Dynamic,
>)
    ensures
        (dyns_model(r@), final(ctx).model()) == eval_filter(
            depth as nat,
            old(ctx).model(),
            node_model(*block),
            node_model(*items),
        ),
        final(ctx).fuel <= old(ctx).fuel,
        frames_kept(old(ctx).model(), final(ctx).model()),
    decreases depth, 58nat, 0nat,
{
    let q = parse_array(ctx, depth, items);
    let child = ctx.current();
    ctx.push_env(child);
    let kept = filter_seq(ctx, depth, q, block);
    ctx.pop_env();
    kept
}

/// Evaluates the operator that [`op_filter`] describes.
pub fn do_filter(ctx: &mut Machine, depth: usize, block: &Node, items: &Node) -> (r: Dynamic)
    ensures
        (dyn_model(r), final(ctx).model()) == op_filter(
            depth as nat,
            old(ctx).model(),
            node_model(*block),
            node_model(*items),
        ),
        final(ctx).fuel <= old(ctx).fuel,
        frames_kept(old(ctx).model(), final(ctx).model()),
    decreases depth, 60nat, 0nat,
{
    array_from(parse_filter(ctx, depth, block, items))
}

/// Evaluates the operator that [`op_any`] describes.
pub fn do_any(ctx: &mut Machine, depth: usize, block: &Node, items: &Node) -> (r: Dynamic)
    ensures
        (dyn_model(r), final(ctx).model()) == op_any(
            depth as nat,
            old(ctx).model(),
            node_model(*block),
            node_model(*items),
        ),
        final(ctx).fuel <= old(ctx).fuel,
        frames_kept(old(ctx).model(), final(ctx).model()),
    decreases depth, 60nat, 0nat,
{
    let kept = parse_filter(ctx, depth, block, items);
    Dynamic::boolean(kept.len() > 0)
}

/// Evaluates the operator that [`op_count`] describes.
pub fn do_count(ctx: &mut Machine, depth: usize, block: &Node, items: &Node) -> (r: Dynamic)
    ensures
        (dyn_model(r), final(ctx).model()) == op_count(
            depth as nat,
            old(ctx).model(),
            node_model(*block),
            node_model(*items),
        ),
        final(ctx).fuel <= old(ctx).fuel,
        frames_kept(old(ctx).model(), final(ctx).model()),
    decreases depth, 60nat, 0nat,
{
    let kept = parse_filter(ctx, depth, block, items);
    Dynamic::number(num_of_usize(kept.len()))
}

/// Evaluates the operator that [`op_repeat`] describes.
pub fn do_repeat(ctx: &mut Machine, depth: usize, block: &Node, start: &Node, times: &Node) -> (r:
    Dynamic)
    ensures
        (dyn_model(r), final(ctx).model()) == op_repeat(
            depth as nat,
            old(ctx).model(),
            node_model(*block),
            node_model(*start),
            node_model(*times),
        ),
        final(ctx).fuel <= old(ctx).fuel,
        frames_kept(old(ctx).model(), final(ctx).model()),
    decreases depth, 60nat, 0nat,
{
    let v = parse_node(ctx, depth, start);
    let t = parse_node(ctx, depth, times);
    let n = num_of(ctx, depth, &t);
    let c = number_count(ctx, &n);
    let child = ctx.current();
    ctx.push_env(child);
    let ghost begin = ctx.model();
    let mut arg = v;
    let mut left = c;
    while left > 0
        invariant
            repeat_block(depth as nat, begin, node_model(*block), dyn_model(v), c as nat)
                == repeat_block(
                depth as nat,
                ctx.model(),
                node_model(*block),
                dyn_model(arg),
                left as nat,
            ),
            ctx.fuel <= old(ctx).fuel,
            frames_kept(begin, ctx.model()),
        decreases left,
    {
        arg = apply(ctx, depth, block, arg);
        left -= 1;
    }
    ctx.pop_env();
    arg
}

/// Evaluates the operator that [`op_do_while`] describes.
pub fn do_do_while(ctx: &mut Machine, depth: usize, left: &Node, right: &Node) -> (r: Dynamic)
    ensures
        (dyn_model(r), final(ctx).model()) == op_do_while(
            depth as nat,
            old(ctx).model(),
            node_model(*left),
            node_model(*right),
        ),
        final(ctx).fuel <= old(ctx).fuel,
        frames_kept(old(ctx).model(), final(ctx).model()),
    decreases depth, 60nat, 0nat,
{
    let child = ctx.current();
    ctx.push_env(child);
    proof {
        lemma_node_model(*left);
    }
    match left {
        Node::Block(_, name) => {
            let v = value_of(ctx, depth, "_");
            match name {
                Some(n) => ctx.define_var(n.as_str(), v),
                None => ctx.define_var("_", v),
            }
        },
        _ => {},
    }
    let first = parse_node_uniq(ctx, depth, left);
    let ghost begin = ctx.model();
    let mut value = first;
    loop
        invariant_except_break
            do_while(
                depth as nat,
                begin,
                node_model(*left),
                node_model(*right),
                dyn_model(first),
            ) == do_while(
                depth as nat,
                ctx.model(),
                node_model(*left),
                node_model(*right),
                dyn_model(value),
            ),
        invariant
            ctx.fuel <= old(ctx).fuel,
            frames_kept(begin, ctx.model()),
        ensures
            do_while(
                depth as nat,
                begin,
                node_model(*left),
                node_model(*right),
                dyn_model(first),
            ) == (dyn_model(value), ctx.model()),
        decreases ctx.fuel,
    {
        let around = ctx.under();
        ctx.push_env(around);
        let c = apply(ctx, depth, right, value.clone());
        let go = bool_of(ctx, depth, &c);
        ctx.pop_env();
        ctx.spend();
        if !go || ctx.is_stopped() {
            break ;
        }
        value = apply(ctx, depth, left, value);
    }
    ctx.pop_env();
    value
}

/// Evaluates the operator that [`op_conditional`] describes.
pub fn do_conditional(ctx: &mut Machine, depth: usize, left: &Node, test: &Node, then: &Node) -> (r:
    Dynamic)
    ensures
        (dyn_model(r), final(ctx).model()) == op_conditional(
            depth as nat,
            old(ctx).model(),
            node_model(*left),
            node_model(*test),
            node_model(*then),
        ),
        final(ctx).fuel <= old(ctx).fuel,
        frames_kept(old(ctx).model(), final(ctx).model()),
    decreases depth, 60nat, 0nat,
{
    let v = parse_node(ctx, depth, left);
    let c = parse_node(ctx, depth, test);
    if bool_of(ctx, depth, &c) {
        let child = ctx.current();
        ctx.push_env(child);
        bind_parameter(ctx, then, v);
        let r = parse_node(ctx, depth, then);
        ctx.pop_env();
        r
    } else {
        v
    }
}

/// Evaluates the operator that [`op_define`] describes.
pub fn do_define(ctx: &mut Machine, left: &Node, right: &Node) -> (r: Dynamic)
    ensures
        (dyn_model(r), final(ctx).model()) == op_define(
            old(ctx).model(),
            node_model(*left),
            node_model(*right),
        ),
        final(ctx).fuel == old(ctx).fuel,
        frames_kept(old(ctx).model(), final(ctx).model()),
{
    let name = string_of(&show_node(ctx, left));
    ctx.bind(trim_str(name.as_str()).as_str(), Binding::Function(right.clone()));
    Dynamic::boolean(false)
}

/// Evaluates the operator that [`op_call`] describes.
pub fn do_call(ctx: &mut Machine, depth: usize, left: &Node, right: &Node) -> (r: Dynamic)
    ensures
        (dyn_model(r), final(ctx).model()) == op_call(
            depth as nat,
            old(ctx).model(),
            node_model(*left),
            node_model(*right),
        ),
        final(ctx).fuel <= old(ctx).fuel,
        frames_kept(old(ctx).model(), final(ctx).model()),
    decreases depth, 60nat, 0nat,
{
    let name = string_of(&show_node(ctx, right));
    let arg = parse_node(ctx, depth, left);
    attempt_call(ctx, depth, trim_str(name.as_str()).as_str(), &arg)
}

} // verus!
