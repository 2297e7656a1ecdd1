//! The operators that make sequences and the operators that look into them.

use crate::back::{collect_back, collect_back_seq};
use crate::eval::{
    array_from, collect, collect_seq, count_value, eval_node, literal_array, literal_string,
    parse_node, seq_next, seq_step, split_on, split_text, text_of, to_u32, with_env,
    array_of_value,
};
use crate::machine::{ErrorKind, fail, frames_kept, Machine, MachineModel};
use crate::num::{decimal, num_of_u64, num_of_usize};
use crate::scalar::{equal_values, values_equal};
use crate::text::{chars_of, string_of};
use crate::tokens::{node_model, Node, NodeModel, Num};
use crate::types::{
    dyn_model, Dynamic, dyns_model, push_value, seq_model, Sequence, SequenceModel, ValModel,
};
use crate::values::array_of;
use vstd::prelude::*;

verus! {

/// The numbers `from`, `from + 1`, and so on, `n` of them.
pub open spec fn numbers_from(from: int, n: int) -> Seq<ValModel> {
    Seq::new(
        if n > 0 {
            n as nat
        } else {
            0
        },
        |i: int| ValModel::Number(decimal((from + i) as nat)),
    )
}

/// The numbers `from`, `from - 1`, and so on down to 1.
pub open spec fn numbers_down(from: int) -> Seq<ValModel> {
    Seq::new(
        if from > 0 {
            from as nat
        } else {
            0
        },
        |i: int| ValModel::Number(decimal((from - i) as nat)),
    )
}

/// `~`: the numbers from 1 to the operand.
pub open spec fn op_range_from_one(d: nat, s: MachineModel, right: NodeModel) -> (
    ValModel,
    MachineModel,
)
    decreases d, 60nat, 0nat,
{
    let (c, s1) = count_value(d, s, right);
    (array_of(numbers_from(1, c as int)), s1)
}

/// `.~`: the numbers from the operand down to 1.
pub open spec fn op_range_down(d: nat, s: MachineModel, left: NodeModel) -> (ValModel, MachineModel)
    decreases d, 60nat, 0nat,
{
    let (c, s1) = count_value(d, s, left);
    (array_of(numbers_down(c as int)), s1)
}

/// `=>` and `->`: the numbers from the left operand to the right one, with
/// or without the right one itself.
pub open spec fn op_range(
    d: nat,
    s: MachineModel,
    left: NodeModel,
    right: NodeModel,
    inclusive: bool,
) -> (ValModel, MachineModel)
    decreases d, 60nat, 0nat,
{
    let (l, s1) = count_value(d, s, left);
    let (r, s2) = count_value(d, s1, right);
    (
        array_of(
            numbers_from(
                l as int,
                r - l + if inclusive {
                    1int
                } else {
                    0int
                },
            ),
        ),
        s2,
    )
}

/// `#`: the length of the operand as a sequence. An infinite sequence has
/// none.
pub open spec fn op_length(d: nat, s: MachineModel, left: NodeModel) -> (ValModel, MachineModel)
    decreases d, 60nat, 0nat,
{
    let (v, s1) = eval_node(d, s, left);
    let (q, s2) = literal_array(s1, v);
    match q.length {
        Some(n) => (ValModel::Number(decimal(n as nat)), s2),
        None => (ValModel::Empty, fail(s2, ErrorKind::InfiniteSequence, Seq::empty())),
    }
}

/// `<>`: the sequence of the two operands.
pub open spec fn op_pair(d: nat, s: MachineModel, left: NodeModel, right: NodeModel) -> (
    ValModel,
    MachineModel,
)
    decreases d, 60nat, 0nat,
{
    let (l, s1) = eval_node(d, s, left);
    let (r, s2) = eval_node(d, s1, right);
    (array_of(seq![l, r]), s2)
}

/// `:n` and `:s`: the pieces of the operand's text between line ends or
/// between spaces.
pub open spec fn op_pieces(d: nat, s: MachineModel, left: NodeModel, sep: char) -> (
    ValModel,
    MachineModel,
)
    decreases d, 60nat, 0nat,
{
    let (v, s1) = eval_node(d, s, left);
    let (t, s2) = literal_string(d, s1, v);
    (array_of(split_on(t, sep)), s2)
}

/// The operand as a sequence that is evaluated in the innermost frame.
pub open spec fn eval_array(d: nat, s: MachineModel, node: NodeModel) -> (
    SequenceModel,
    MachineModel,
)
    decreases d, 55nat, 0nat,
{
    let (v, s1) = eval_node(d, s, node);
    let (q, s2) = literal_array(s1, v);
    (with_env(s2, q), s2)
}

/// All entries of the operand as a sequence that is evaluated in the
/// innermost frame.
pub open spec fn eval_items(d: nat, s: MachineModel, node: NodeModel) -> (
    Seq<ValModel>,
    MachineModel,
)
    decreases d, 56nat, 0nat,
{
    let (q, s1) = eval_array(d, s, node);
    collect(d, s1, q, Seq::empty())
}

/// `:{`: the first entry of the operand.
pub open spec fn op_head(d: nat, s: MachineModel, left: NodeModel) -> (ValModel, MachineModel)
    decreases d, 60nat, 0nat,
{
    let (q, s1) = eval_array(d, s, left);
    let (x, _, s2) = seq_next(d, s1, q);
    match x {
        Some(e) => (e, s2),
        None => (ValModel::Empty, fail(s2, ErrorKind::EmptySequence, Seq::empty())),
    }
}

/// `:}`: the last entry of the operand.
pub open spec fn op_tail(d: nat, s: MachineModel, left: NodeModel) -> (ValModel, MachineModel)
    decreases d, 60nat, 0nat,
{
    let (items, s1) = eval_items(d, s, left);
    if items.len() > 0 {
        (items.last(), s1)
    } else {
        (ValModel::Empty, fail(s1, ErrorKind::EmptySequence, Seq::empty()))
    }
}

/// `.{`: the operand without its first entry.
pub open spec fn op_behead(d: nat, s: MachineModel, left: NodeModel) -> (ValModel, MachineModel)
    decreases d, 60nat, 0nat,
{
    let (items, s1) = eval_items(d, s, left);
    if items.len() > 0 {
        (array_of(items.skip(1)), s1)
    } else {
        (ValModel::Empty, fail(s1, ErrorKind::EmptySequence, Seq::empty()))
    }
}

/// `.}`: the operand without its last entry.
pub open spec fn op_drop_last(d: nat, s: MachineModel, left: NodeModel) -> (ValModel, MachineModel)
    decreases d, 60nat, 0nat,
{
    let (items, s1) = eval_items(d, s, left);
    if items.len() > 0 {
        (array_of(items.drop_last()), s1)
    } else {
        (ValModel::Empty, fail(s1, ErrorKind::EmptySequence, Seq::empty()))
    }
}

/// The two parts of a run of entries before and from an index on, as a
/// sequence of two sequences.
pub open spec fn halves_at(items: Seq<ValModel>, mid: int) -> ValModel {
    array_of(seq![array_of(items.take(mid)), array_of(items.skip(mid))])
}

/// `$.`: the operand split in the middle.
pub open spec fn op_halves(d: nat, s: MachineModel, right: NodeModel) -> (ValModel, MachineModel)
    decreases d, 60nat, 0nat,
{
    let (items, s1) = eval_items(d, s, right);
    (halves_at(items, items.len() as int / 2), s1)
}

/// `.$`: the left operand split at the index that the right one gives.
pub open spec fn op_split_at(d: nat, s: MachineModel, left: NodeModel, right: NodeModel) -> (
    ValModel,
    MachineModel,
)
    decreases d, 60nat, 0nat,
{
    let (v, s1) = eval_node(d, s, left);
    let (q, s2) = literal_array(s1, v);
    let (i, s3) = count_value(d, s2, right);
    let (items, s4) = collect(d, s3, with_env(s3, q), Seq::empty());
    if i <= items.len() {
        (halves_at(items, i as int), s4)
    } else {
        (ValModel::Empty, fail(s4, ErrorKind::EmptySequence, Seq::empty()))
    }
}

/// `.<`: the entries of the operand from the last to the first, by a walk
/// from the back. An infinite sequence has no last entry.
pub open spec fn op_reverse(d: nat, s: MachineModel, left: NodeModel) -> (ValModel, MachineModel)
    decreases d, 60nat, 0nat,
{
    let (v, s1) = eval_node(d, s, left);
    let (q, s2) = literal_array(s1, v);
    let (items, s3) = collect_back(d, s2, q, Seq::empty());
    (array_of(items), s3)
}

/// The entry that a walk yields after `n` others.
pub open spec fn nth_of(d: nat, s: MachineModel, q: SequenceModel, n: nat) -> (
    Option<ValModel>,
    MachineModel,
)
    decreases d, 33nat, n,
{
    let (x, q1, s1) = seq_next(d, s, q);
    match x {
        None => (None, s1),
        Some(e) => if n == 0 {
            (Some(e), s1)
        } else {
            nth_of(d, s1, q1, (n - 1) as nat)
        },
    }
}

/// `?`: the entry of the left operand at the index that the right one
/// gives.
pub open spec fn op_nth(d: nat, s: MachineModel, left: NodeModel, right: NodeModel) -> (
    ValModel,
    MachineModel,
)
    decreases d, 60nat, 0nat,
{
    let (q, s1) = eval_array(d, s, left);
    let (i, s2) = count_value(d, s1, right);
    let (x, s3) = nth_of(d, s2, q, i as nat);
    match x {
        Some(e) => (e, s3),
        None => (ValModel::Empty, fail(s3, ErrorKind::EmptySequence, Seq::empty())),
    }
}

/// The index of the first entry of a walk that equals the value, counted
/// from `i`; none if the walk ends first.
pub open spec fn position_of(d: nat, s: MachineModel, q: SequenceModel, v: ValModel, i: nat) -> (
    Option<nat>,
    MachineModel,
)
    decreases d, 33nat, s.fuel,
{
    let (x, q1, s1) = seq_next(d, s, q);
    match x {
        None => (None, s1),
        Some(e) => {
            let (same, s2) = values_equal(s1, e, v);
            if same {
                (Some(i), s2)
            } else if s2.fuel < s.fuel {
                position_of(d, s2, q1, v, i + 1)
            } else {
                (None, s2)
            }
        },
    }
}

/// `:i`: the index of the right operand among the entries of the left one,
/// or -1.
pub open spec fn op_index_of(d: nat, s: MachineModel, left: NodeModel, right: NodeModel) -> (
    ValModel,
    MachineModel,
)
    decreases d, 60nat, 0nat,
{
    let (v, s1) = eval_node(d, s, left);
    let (q, s2) = literal_array(s1, v);
    let (val, s3) = eval_node(d, s2, right);
    let (x, s4) = position_of(d, s3, with_env(s3, q), val, 0);
    match x {
        Some(i) => (ValModel::Number(decimal(i)), s4),
        None => (ValModel::Number(seq!['-', '1']), s4),
    }
}

/// `|`: two sequences are joined, a sequence takes a single value in at the
/// side where it stands, and two single values are joined as texts.
pub open spec fn op_concat(d: nat, s: MachineModel, left: NodeModel, right: NodeModel) -> (
    ValModel,
    MachineModel,
)
    decreases d, 60nat, 0nat,
{
    let (l, s1) = eval_node(d, s, left);
    let (r, s2) = eval_node(d, s1, right);
    match (l, r) {
        (ValModel::Array(a), ValModel::Array(b)) => {
            let (la, s3) = collect(d, s2, with_env(s2, *a), Seq::empty());
            let (lb, s4) = collect(d, s3, with_env(s3, *b), Seq::empty());
            (array_of(la + lb), s4)
        },
        (ValModel::Array(a), _) => {
            let (la, s3) = collect(d, s2, with_env(s2, *a), Seq::empty());
            (array_of(la.push(r)), s3)
        },
        (_, ValModel::Array(b)) => {
            let (lb, s3) = collect(d, s2, with_env(s2, *b), Seq::empty());
            (array_of(seq![l] + lb), s3)
        },
        _ => {
            let (a, s3) = literal_string(d, s2, l);
            let (b, s4) = literal_string(d, s3, r);
            (ValModel::String(a + b), s4)
        },
    }
}

/// The pairs of the entries of two runs at the same index, from index `i`
/// on.
pub open spec fn pairs_of(a: Seq<ValModel>, b: Seq<ValModel>) -> Seq<ValModel> {
    Seq::new(a.len(), |i: int| array_of(seq![a[i], b[i]]))
}

/// `z`: the pairs of the entries of the two operands. The right operand
/// must have as many entries as the left one, or more.
pub open spec fn op_zip(d: nat, s: MachineModel, left: NodeModel, right: NodeModel) -> (
    ValModel,
    MachineModel,
)
    decreases d, 60nat, 0nat,
{
    let (a, s1) = eval_items(d, s, left);
    let (b, s2) = eval_items(d, s1, right);
    if a.len() <= b.len() {
        (array_of(pairs_of(a, b)), s2)
    } else {
        (ValModel::Empty, fail(s2, ErrorKind::EmptySequence, Seq::empty()))
    }
}

/// The numbers `from`, `from + 1`, and so on, `n` of them.
pub fn number_run(from: u64, n: u64) -> (r: Vec<Dynamic>)
    requires
        from + n <= u64::MAX,
    ensures
        dyns_model(r@) == numbers_from(from as int, n as int),
{
    let mut out: Vec<Dynamic> = Vec::new();
    let mut i: u64 = 0;
    while i < n
        invariant
            i <= n,
            from + n <= u64::MAX,
            dyns_model(out@) =~= numbers_from(from as int, i as int),
        decreases n - i,
    {
        push_value(&mut out, Dynamic::number(num_of_u64(from + i)));
        i += 1;
    }
    out
}

/// The numbers `from`, `from - 1`, and so on down to 1.
pub fn number_run_down(from: u64) -> (r: Vec<Dynamic>)
    ensures
        dyns_model(r@) == numbers_down(from as int),
{
    let mut out: Vec<Dynamic> = Vec::new();
    let mut i: u64 = 0;
    while i < from
        invariant
            i <= from,
            dyns_model(out@) =~= numbers_down(from as int).take(i as int),
        decreases from - i,
    {
        push_value(&mut out, Dynamic::number(num_of_u64(from - i)));
        i += 1;
    }
    assert(numbers_down(from as int).take(from as int) =~= numbers_down(from as int));
    out
}

/// A copy of the entries from index `from` up to `to`.
pub fn slice_values(items: &Vec<Dynamic>, from: usize, to: usize) -> (r: Vec<Dynamic>)
    requires
        from <= to <= items@.len(),
    ensures
        dyns_model(r@) == dyns_model(items@).subrange(from as int, to as int),
{
    let mut out: Vec<Dynamic> = Vec::new();
    let mut i: usize = from;
    while i < to
        invariant
            from <= i <= to <= items@.len(),
            dyns_model(out@) =~= dyns_model(items@).subrange(from as int, i as int),
        decreases to - i,
    {
        push_value(&mut out, items[i].clone());
        i += 1;
    }
    out
}

/// The sequence of two values.
pub fn pair_of(a: Dynamic, b: Dynamic) -> (r: Dynamic)
    ensures
        dyn_model(r) == array_of(seq![dyn_model(a), dyn_model(b)]),
{
    let mut v: Vec<Dynamic> = Vec::new();
    v.push(a);
    v.push(b);
    assert(dyns_model(v@) =~= seq![dyn_model(a), dyn_model(b)]);
    array_from(v)
}

/// The two parts of a run of entries before and from an index on.
pub fn split_values(items: &Vec<Dynamic>, mid: usize) -> (r: Dynamic)
    requires
        mid <= items@.len(),
    ensures
        dyn_model(r) == halves_at(dyns_model(items@), mid as int),
{
    let a = slice_values(items, 0, mid);
    let b = slice_values(items, mid, items.len());
    assert(dyns_model(items@).take(mid as int) =~= dyns_model(items@).subrange(0, mid as int));
    assert(dyns_model(items@).skip(mid as int) =~= dyns_model(items@).subrange(
        mid as int,
        items@.len() as int,
    ));
    pair_of(array_from(a), array_from(b))
}

/// Evaluates the operator that [`op_range_from_one`] describes.
pub fn do_range_from_one(ctx: &mut Machine, depth: usize, right: &Node) -> (r: Dynamic)
    ensures
        (dyn_model(r), final(ctx).model()) == op_range_from_one(
            depth as nat,
            old(ctx).model(),
            node_model(*right),
        ),
        final(ctx).fuel <= old(ctx).fuel,
        frames_kept(old(ctx).model(), final(ctx).model()),
    decreases depth, 60nat, 0nat,
{
    let c = to_u32(ctx, depth, right);
    array_from(number_run(1, c as u64))
}

/// Evaluates the operator that [`op_range_down`] describes.
pub fn do_range_down(ctx: &mut Machine, depth: usize, left: &Node) -> (r: Dynamic)
    ensures
        (dyn_model(r), final(ctx).model()) == op_range_down(
            depth as nat,
            old(ctx).model(),
            node_model(*left),
        ),
        final(ctx).fuel <= old(ctx).fuel,
        frames_kept(old(ctx).model(), final(ctx).model()),
    decreases depth, 60nat, 0nat,
{
    let c = to_u32(ctx, depth, left);
    array_from(number_run_down(c as u64))
}

/// Evaluates the operator that [`op_range`] describes.
pub fn do_range(ctx: &mut Machine, depth: usize, left: &Node, right: &Node, inclusive: bool) -> (r:
    Dynamic)
    ensures
        (dyn_model(r), final(ctx).model()) == op_range(
            depth as nat,
            old(ctx).model(),
            node_model(*left),
            node_model(*right),
            inclusive,
        ),
        final(ctx).fuel <= old(ctx).fuel,
        frames_kept(old(ctx).model(), final(ctx).model()),
    decreases depth, 60nat, 0nat,
{
    let l = to_u32(ctx, depth, left);
    let r = to_u32(ctx, depth, right);
    let n: u64 = if r >= l {
        (r - l) as u64 + if inclusive {
            1
        } else {
            0
        }
    } else {
        0
    };
    array_from(number_run(l as u64, n))
}

/// Evaluates the operator that [`op_length`] describes.
pub fn do_length(ctx: &mut Machine, depth: usize, left: &Node) -> (r: Dynamic)
    ensures
        (dyn_model(r), final(ctx).model()) == op_length(
            depth as nat,
            old(ctx).model(),
            node_model(*left),
        ),
        final(ctx).fuel <= old(ctx).fuel,
        frames_kept(old(ctx).model(), final(ctx).model()),
    decreases depth, 60nat, 0nat,
{
    let v = parse_node(ctx, depth, left);
    let q = array_of_value(ctx, &v);
    match q.length {
        Some(n) => Dynamic::number(num_of_usize(n)),
        None => {
            ctx.fail(ErrorKind::InfiniteSequence, String::new());
            Dynamic::empty()
        },
    }
}

/// Evaluates the operator that [`op_pair`] describes.
pub fn do_pair(ctx: &mut Machine, depth: usize, left: &Node, right: &Node) -> (r: Dynamic)
    ensures
        (dyn_model(r), final(ctx).model()) == op_pair(
            depth as nat,
            old(ctx).model(),
            node_model(*left),
            node_model(*right),
        ),
        final(ctx).fuel <= old(ctx).fuel,
        frames_kept(old(ctx).model(), final(ctx).model()),
    decreases depth, 60nat, 0nat,
{
    let l = parse_node(ctx, depth, left);
    let r = parse_node(ctx, depth, right);
    pair_of(l, r)
}

/// Evaluates the operator that [`op_pieces`] describes.
pub fn do_pieces(ctx: &mut Machine, depth: usize, left: &Node, sep: char) -> (r: Dynamic)
    ensures
        (dyn_model(r), final(ctx).model()) == op_pieces(
            depth as nat,
            old(ctx).model(),
            node_model(*left),
            sep,
        ),
        final(ctx).fuel <= old(ctx).fuel,
        frames_kept(old(ctx).model(), final(ctx).model()),
    decreases depth, 60nat, 0nat,
{
    let v = parse_node(ctx, depth, left);
    let t = text_of(ctx, depth, &v);
    array_from(split_text(&chars_of(t.as_str()), sep))
}

/// The operand as a sequence that is evaluated in the innermost frame.
pub fn parse_array(ctx: &mut Machine, depth: usize, node: &Node) -> (q: Sequence)
    ensures
        (seq_model(q), final(ctx).model()) == eval_array(
            depth as nat,
            old(ctx).model(),
            node_model(*node),
        ),
        final(ctx).fuel <= old(ctx).fuel,
        frames_kept(old(ctx).model(), final(ctx).model()),
    decreases depth, 55nat, 0nat,
{
    let v = parse_node(ctx, depth, node);
    let q = array_of_value(ctx, &v);
    q.set_env_self(ctx.current())
}

/// All entries of the operand as a sequence.
pub fn parse_items(ctx: &mut Machine, depth: usize, node: &Node) -> (r: Vec<Dynamic>)
    ensures
        (dyns_model(r@), final(ctx).model()) == eval_items(
            depth as nat,
            old(ctx).model(),
            node_model(*node),
        ),
        final(ctx).fuel <= old(ctx).fuel,
        frames_kept(old(ctx).model(), final(ctx).model()),
    decreases depth, 56nat, 0nat,
{
    let q = parse_array(ctx, depth, node);
    collect_seq(ctx, depth, q)
}

/// Evaluates the operator that [`op_head`] describes.
pub fn do_head(ctx: &mut Machine, depth: usize, left: &Node) -> (r: Dynamic)
    ensures
        (dyn_model(r), final(ctx).model()) == op_head(
            depth as nat,
            old(ctx).model(),
            node_model(*left),
        ),
        final(ctx).fuel <= old(ctx).fuel,
        frames_kept(old(ctx).model(), final(ctx).model()),
    decreases depth, 60nat, 0nat,
{
    let mut q = parse_array(ctx, depth, left);
    match seq_step(ctx, depth, &mut q) {
        Some(e) => e,
        None => {
            ctx.fail(ErrorKind::EmptySequence, String::new());
            Dynamic::empty()
        },
    }
}

/// Evaluates the operator that [`op_tail`] describes.
pub fn do_tail(ctx: &mut Machine, depth: usize, left: &Node) -> (r: Dynamic)
    ensures
        (dyn_model(r), final(ctx).model()) == op_tail(
            depth as nat,
            old(ctx).model(),
            node_model(*left),
        ),
        final(ctx).fuel <= old(ctx).fuel,
        frames_kept(old(ctx).model(), final(ctx).model()),
    decreases depth, 60nat, 0nat,
{
    let items = parse_items(ctx, depth, left);
    let n = items.len();
    if n > 0 {
        items[n - 1].clone()
    } else {
        ctx.fail(ErrorKind::EmptySequence, String::new());
        Dynamic::empty()
    }
}

/// Evaluates the operator that [`op_behead`] describes.
pub fn do_behead(ctx: &mut Machine, depth: usize, left: &Node) -> (r: Dynamic)
    ensures
        (dyn_model(r), final(ctx).model()) == op_behead(
            depth as nat,
            old(ctx).model(),
            node_model(*left),
        ),
        final(ctx).fuel <= old(ctx).fuel,
        frames_kept(old(ctx).model(), final(ctx).model()),
    decreases depth, 60nat, 0nat,
{
    let items = parse_items(ctx, depth, left);
    let n = items.len();
    if n > 0 {
        assert(dyns_model(items@).skip(1) =~= dyns_model(items@).subrange(1, n as int));
        array_from(slice_values(&items, 1, n))
    } else {
        ctx.fail(ErrorKind::EmptySequence, String::new());
        Dynamic::empty()
    }
}

/// Evaluates the operator that [`op_drop_last`] describes.
pub fn do_drop_last(ctx: &mut Machine, depth: usize, left: &Node) -> (r: Dynamic)
    ensures
        (dyn_model(r), final(ctx).model()) == op_drop_last(
            depth as nat,
            old(ctx).model(),
            node_model(*left),
        ),
        final(ctx).fuel <= old(ctx).fuel,
        frames_kept(old(ctx).model(), final(ctx).model()),
    decreases depth, 60nat, 0nat,
{
    let items = parse_items(ctx, depth, left);
    let n = items.len();
    if n > 0 {
        assert(dyns_model(items@).drop_last() =~= dyns_model(items@).subrange(0, n - 1));
        array_from(slice_values(&items, 0, n - 1))
    } else {
        ctx.fail(ErrorKind::EmptySequence, String::new());
        Dynamic::empty()
    }
}

/// Evaluates the operator that [`op_halves`] describes.
pub fn do_halves(ctx: &mut Machine, depth: usize, right: &Node) -> (r: Dynamic)
    ensures
        (dyn_model(r), final(ctx).model()) == op_halves(
            depth as nat,
            old(ctx).model(),
            node_model(*right),
        ),
        final(ctx).fuel <= old(ctx).fuel,
        frames_kept(old(ctx).model(), final(ctx).model()),
    decreases depth, 60nat, 0nat,
{
    let items = parse_items(ctx, depth, right);
    split_values(&items, items.len() / 2)
}

/// Evaluates the operator that [`op_split_at`] describes.
pub fn do_split_at(ctx: &mut Machine, depth: usize, left: &Node, right: &Node) -> (r: Dynamic)
    ensures
        (dyn_model(r), final(ctx).model()) == op_split_at(
            depth as nat,
            old(ctx).model(),
            node_model(*left),
            node_model(*right),
        ),
        final(ctx).fuel <= old(ctx).fuel,
        frames_kept(old(ctx).model(), final(ctx).model()),
    decreases depth, 60nat, 0nat,
{
    let v = parse_node(ctx, depth, left);
    let q = array_of_value(ctx, &v);
    let i = to_u32(ctx, depth, right) as usize;
    let items = collect_seq(ctx, depth, q.set_env_self(ctx.current()));
    if i <= items.len() {
        split_values(&items, i)
    } else {
        ctx.fail(ErrorKind::EmptySequence, String::new());
        Dynamic::empty()
    }
}

/// Evaluates the operator that [`op_reverse`] describes.
pub fn do_reverse(ctx: &mut Machine, depth: usize, left: &Node) -> (r: Dynamic)
    ensures
        (dyn_model(r), final(ctx).model()) == op_reverse(
            depth as nat,
            old(ctx).model(),
            node_model(*left),
        ),
        final(ctx).fuel <= old(ctx).fuel,
        frames_kept(old(ctx).model(), final(ctx).model()),
    decreases depth, 60nat, 0nat,
{
    let v = parse_node(ctx, depth, left);
    let q = array_of_value(ctx, &v);
    array_from(collect_back_seq(ctx, depth, q))
}

/// The entry that a walk yields after `n` others.
pub fn nth_entry(ctx: &mut Machine, depth: usize, seq: Sequence, n: usize) -> (r: Option<Dynamic>)
    ensures
        (crate::types::opt_model(r), final(ctx).model()) == nth_of(
            depth as nat,
            old(ctx).model(),
            seq_model(seq),
            n as nat,
        ),
        final(ctx).fuel <= old(ctx).fuel,
        frames_kept(old(ctx).model(), final(ctx).model()),
    decreases depth, 33nat, 0nat,
{
    let mut q = seq;
    let mut left = n;
    loop
        invariant
            nth_of(depth as nat, old(ctx).model(), seq_model(seq), n as nat) == nth_of(
                depth as nat,
                ctx.model(),
                seq_model(q),
                left as nat,
            ),
            ctx.fuel <= old(ctx).fuel,
            frames_kept(old(ctx).model(), ctx.model()),
        decreases left,
    {
        match seq_step(ctx, depth, &mut q) {
            None => {
                return None;
            },
            Some(e) => {
                if left == 0 {
                    return Some(e);
                }
                left -= 1;
            },
        }
    }
}

/// Evaluates the operator that [`op_nth`] describes.
pub fn do_nth(ctx: &mut Machine, depth: usize, left: &Node, right: &Node) -> (r: Dynamic)
    ensures
        (dyn_model(r), final(ctx).model()) == op_nth(
            depth as nat,
            old(ctx).model(),
            node_model(*left),
            node_model(*right),
        ),
        final(ctx).fuel <= old(ctx).fuel,
        frames_kept(old(ctx).model(), final(ctx).model()),
    decreases depth, 60nat, 0nat,
{
    let q = parse_array(ctx, depth, left);
    let i = to_u32(ctx, depth, right);
    match nth_entry(ctx, depth, q, i as usize) {
        Some(e) => e,
        None => {
            ctx.fail(ErrorKind::EmptySequence, String::new());
            Dynamic::empty()
        },
    }
}

/// The index of the first entry of a walk that equals the value.
pub fn find_position(ctx: &mut Machine, depth: usize, seq: Sequence, v: &Dynamic) -> (r: Option<
    u64,
>)
    ensures
        (
            match r {
                Some(i) => Some(i as nat),
                None => None,
            },
            final(ctx).model(),
        ) == position_of(depth as nat, old(ctx).model(), seq_model(seq), dyn_model(*v), 0),
        final(ctx).fuel <= old(ctx).fuel,
        frames_kept(old(ctx).model(), final(ctx).model()),
    decreases depth, 33nat, 0nat,
{
    let mut q = seq;
    let mut i: u64 = 0;
    loop
        invariant
            position_of(depth as nat, old(ctx).model(), seq_model(seq), dyn_model(*v), 0)
                == position_of(depth as nat, ctx.model(), seq_model(q), dyn_model(*v), i as nat),
            ctx.fuel <= old(ctx).fuel,
            frames_kept(old(ctx).model(), ctx.model()),
            i + ctx.fuel <= u64::MAX,
        decreases ctx.fuel,
    {
        match seq_step(ctx, depth, &mut q) {
            None => {
                return None;
            },
            Some(e) => {
                if equal_values(ctx, &e, v) {
                    return Some(i);
                }
                i += 1;
            },
        }
    }
}

/// Evaluates the operator that [`op_index_of`] describes.
pub fn do_index_of(ctx: &mut Machine, depth: usize, left: &Node, right: &Node) -> (r: Dynamic)
    ensures
        (dyn_model(r), final(ctx).model()) == op_index_of(
            depth as nat,
            old(ctx).model(),
            node_model(*left),
            node_model(*right),
        ),
        final(ctx).fuel <= old(ctx).fuel,
        frames_kept(old(ctx).model(), final(ctx).model()),
    decreases depth, 60nat, 0nat,
{
    let v = parse_node(ctx, depth, left);
    let q = array_of_value(ctx, &v);
    let val = parse_node(ctx, depth, right);
    let q = q.set_env_self(ctx.current());
    match find_position(ctx, depth, q, &val) {
        Some(i) => Dynamic::number(num_of_u64(i)),
        None => {
            let mut t: Vec<char> = Vec::new();
            t.push('-');
            t.push('1');
            assert(t@ =~= seq!['-', '1']);
            Dynamic::number(Num { text: string_of(&t) })
        },
    }
}

/// The entries of a sequence value, evaluated in the innermost frame.
fn items_of(ctx: &mut Machine, depth: usize, q: &Sequence) -> (r: Vec<Dynamic>)
    ensures
        (dyns_model(r@), final(ctx).model()) == collect(
            depth as nat,
            old(ctx).model(),
            with_env(old(ctx).model(), seq_model(*q)),
            Seq::empty(),
        ),
        final(ctx).fuel <= old(ctx).fuel,
        frames_kept(old(ctx).model(), final(ctx).model()),
    decreases depth, 40nat, 0nat,
{
    let c = q.clone().set_env_self(ctx.current());
    collect_seq(ctx, depth, c)
}

/// Two runs of entries joined.
pub fn join_values(a: Vec<Dynamic>, b: &Vec<Dynamic>) -> (r: Vec<Dynamic>)
    ensures
        dyns_model(r@) == dyns_model(a@) + dyns_model(b@),
{
    let mut out = a;
    let mut i: usize = 0;
    assert(dyns_model(out@) =~= dyns_model(a@) + dyns_model(b@).take(0));
    while i < b.len()
        invariant
            i <= b.len(),
            dyns_model(out@) =~= dyns_model(a@) + dyns_model(b@).take(i as int),
        decreases b.len() - i,
    {
        push_value(&mut out, b[i].clone());
        i += 1;
    }
    assert(dyns_model(b@).take(b.len() as int) =~= dyns_model(b@));
    out
}

/// Evaluates the operator that [`op_concat`] describes.
pub fn do_concat(ctx: &mut Machine, depth: usize, left: &Node, right: &Node) -> (r: Dynamic)
    ensures
        (dyn_model(r), final(ctx).model()) == op_concat(
            depth as nat,
            old(ctx).model(),
            node_model(*left),
            node_model(*right),
        ),
        final(ctx).fuel <= old(ctx).fuel,
        frames_kept(old(ctx).model(), final(ctx).model()),
    decreases depth, 60nat, 0nat,
{
    let l = parse_node(ctx, depth, left);
    let r = parse_node(ctx, depth, right);
    match (&l.val, &r.val) {
        (crate::types::Val::Array(a), crate::types::Val::Array(b)) => {
            let la = items_of(ctx, depth, a);
            let lb = items_of(ctx, depth, b);
            array_from(join_values(la, &lb))
        },
        (crate::types::Val::Array(a), _) => {
            let mut la = items_of(ctx, depth, a);
            push_value(&mut la, r.clone());
            array_from(la)
        },
        (_, crate::types::Val::Array(b)) => {
            let lb = items_of(ctx, depth, b);
            let mut first: Vec<Dynamic> = Vec::new();
            push_value(&mut first, l.clone());
            assert(dyns_model(first@) =~= seq![dyn_model(l)]);
            array_from(join_values(first, &lb))
        },
        _ => {
            let a = text_of(ctx, depth, &l);
            let b = text_of(ctx, depth, &r);
            let mut out = chars_of(a.as_str());
            let more = chars_of(b.as_str());
            let mut i: usize = 0;
            assert(out@ =~= a@ + b@.take(0));
            while i < more.len()
                invariant
                    i <= more.len(),
                    more@ == b@,
                    out@ =~= a@ + b@.take(i as int),
                decreases more.len() - i,
            {
                out.push(more[i]);
                i += 1;
            }
            assert(b@.take(b@.len() as int) =~= b@);
            Dynamic::text(string_of(&out))
        },
    }
}

/// Evaluates the operator that [`op_zip`] describes.
pub fn do_zip(ctx: &mut Machine, depth: usize, left: &Node, right: &Node) -> (r: Dynamic)
    ensures
        (dyn_model(r), final(ctx).model()) == op_zip(
            depth as nat,
            old(ctx).model(),
            node_model(*left),
            node_model(*right),
        ),
        final(ctx).fuel <= old(ctx).fuel,
        frames_kept(old(ctx).model(), final(ctx).model()),
    decreases depth, 60nat, 0nat,
{
    let a = parse_items(ctx, depth, left);
    let b = parse_items(ctx, depth, right);
    if a.len() <= b.len() {
        let mut out: Vec<Dynamic> = Vec::new();
        let mut i: usize = 0;
        while i < a.len()
            invariant
                i <= a.len() <= b.len(),
                dyns_model(out@) =~= pairs_of(dyns_model(a@), dyns_model(b@)).take(i as int),
            decreases a.len() - i,
        {
            push_value(&mut out, pair_of(a[i].clone(), b[i].clone()));
            i += 1;
        }
        assert(pairs_of(dyns_model(a@), dyns_model(b@)).take(a.len() as int) =~= pairs_of(
            dyns_model(a@),
            dyns_model(b@),
        ));
        array_from(out)
    } else {
        ctx.fail(ErrorKind::EmptySequence, String::new());
        Dynamic::empty()
    }
}

} // verus!
