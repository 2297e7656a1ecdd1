//! The operators that rearrange the entries of a sequence: grouping,
//! removing duplicates, sorting, joining, flattening and transposing.

use crate::eval::{
    array_from, array_of_value, collect, collect_seq, count_of, display, eval_node, literal_array,
    literal_num, literal_string, num_of, number_count, one, parse_node, print_value, seq_next,
    seq_step, text_of, zero,
};
use crate::fold::{groups_model, nested, nested_from};
use crate::machine::{
    Answer, AnswerModel, ask, ErrorKind, fail, frames_kept, Machine, MachineModel, Request,
    RequestModel,
};

use crate::scalar::{equal_values, values_equal};
use crate::seqops::{eval_items, number_run, numbers_from, parse_items};
use crate::text::{append_chars, chars_of, string_of};
use crate::tokens::{node_model, Node, NodeModel};
use crate::types::{
    clone_dyns, dyn_model, Dynamic, dyns_model, push_value, seq_model, Sequence, SequenceModel,
    Val, ValModel,
};
use crate::values::{array_of, literal_of};
use vstd::prelude::*;

verus! {

/// The index of the first group from index `i` on whose first entry equals
/// the value.
pub open spec fn find_group(s: MachineModel, groups: Seq<Seq<ValModel>>, v: ValModel, i: int) -> (
    Option<int>,
    MachineModel,
)
    decreases groups.len() - i,
{
    if i < 0 || i >= groups.len() {
        (None, s)
    } else if groups[i].len() == 0 {
        find_group(s, groups, v, i + 1)
    } else {
        let (same, s1) = values_equal(s, groups[i][0], v);
        if same {
            (Some(i), s1)
        } else {
            find_group(s1, groups, v, i + 1)
        }
    }
}

/// The groups of the values from index `i` on: a value joins the first
/// group whose first entry it equals, or starts a new group.
pub open spec fn group_all(
    s: MachineModel,
    items: Seq<ValModel>,
    i: int,
    groups: Seq<Seq<ValModel>>,
) -> (Seq<Seq<ValModel>>, MachineModel)
    decreases items.len() - i,
{
    if i < 0 || i >= items.len() {
        (groups, s)
    } else {
        let (g, s1) = find_group(s, groups, items[i], 0);
        group_all(
            s1,
            items,
            i + 1,
            match g {
                Some(k) => groups.update(k, groups[k].push(items[i])),
                None => groups.push(seq![items[i]]),
            },
        )
    }
}

/// `:@`: the entries of the operand in groups of equal entries.
pub open spec fn op_group(d: nat, s: MachineModel, left: NodeModel) -> (ValModel, MachineModel)
    decreases d, 60nat, 0nat,
{
    let (items, s1) = eval_items(d, s, left);
    let (groups, s2) = group_all(s1, items, 0, Seq::empty());
    (nested(groups), s2)
}

/// Whether two values are of the same kind.
pub open spec fn same_kind(a: ValModel, b: ValModel) -> bool {
    match a {
        ValModel::String(_) => b is String,
        ValModel::Number(_) => b is Number,
        ValModel::Boolean(_) => b is Boolean,
        ValModel::Array(_) => b is Array,
        ValModel::Empty => b is Empty,
    }
}

/// Whether a value of the same kind that equals `v` is among the values
/// from index `i` on.
pub open spec fn seen_in(s: MachineModel, seen: Seq<ValModel>, v: ValModel, i: int) -> (
    bool,
    MachineModel,
)
    decreases seen.len() - i,
{
    if i < 0 || i >= seen.len() {
        (false, s)
    } else if same_kind(seen[i], v) {
        let (same, s1) = values_equal(s, v, seen[i]);
        if same {
            (true, s1)
        } else {
            seen_in(s1, seen, v, i + 1)
        }
    } else {
        seen_in(s, seen, v, i + 1)
    }
}

/// The values from index `i` on without those seen before; with `sieve`,
/// a 1 for each value not seen before and a 0 for each other.
pub open spec fn dedup_all(
    s: MachineModel,
    items: Seq<ValModel>,
    i: int,
    seen: Seq<ValModel>,
    acc: Seq<ValModel>,
    sieve: bool,
) -> (Seq<ValModel>, MachineModel)
    decreases items.len() - i,
{
    if i < 0 || i >= items.len() {
        (acc, s)
    } else {
        let (dup, s1) = seen_in(s, seen, items[i], 0);
        if dup {
            dedup_all(
                s1,
                items,
                i + 1,
                seen,
                if sieve {
                    acc.push(ValModel::Number(seq!['0']))
                } else {
                    acc
                },
                sieve,
            )
        } else {
            dedup_all(
                s1,
                items,
                i + 1,
                seen.push(items[i]),
                if sieve {
                    acc.push(ValModel::Number(seq!['1']))
                } else {
                    acc.push(items[i])
                },
                sieve,
            )
        }
    }
}

/// `#>` and `#:`: the entries of the operand without duplicates, or the
/// marks that tell which entries are no duplicates.
pub open spec fn op_dedup(d: nat, s: MachineModel, right: NodeModel, sieve: bool) -> (
    ValModel,
    MachineModel,
)
    decreases d, 60nat, 0nat,
{
    let (items, s1) = eval_items(d, s, right);
    let (acc, s2) = dedup_all(s1, items, 0, Seq::empty(), Seq::empty(), sieve);
    (array_of(acc), s2)
}

/// The texts that the values from index `i` on are printed as, behind
/// `acc`.
pub open spec fn display_all(
    d: nat,
    s: MachineModel,
    items: Seq<ValModel>,
    i: int,
    acc: Seq<Seq<char>>,
) -> (Seq<Seq<char>>, MachineModel)
    decreases d, 34nat, items.len() - i,
{
    if i < 0 || i >= items.len() {
        (acc, s)
    } else {
        let (t, s1) = display(d, s, items[i]);
        display_all(d, s1, items, i + 1, acc.push(t))
    }
}

/// The texts joined with the separator between them.
pub open spec fn join_texts(parts: Seq<Seq<char>>, sep: Seq<char>) -> Seq<char>
    decreases parts.len(),
{
    if parts.len() == 0 {
        Seq::empty()
    } else if parts.len() == 1 {
        parts[0]
    } else {
        join_texts(parts.drop_last(), sep) + sep + parts.last()
    }
}

/// `:|`: the entries of the left operand as they are printed, joined by the
/// text of the right operand.
pub open spec fn op_join(d: nat, s: MachineModel, left: NodeModel, right: NodeModel) -> (
    ValModel,
    MachineModel,
)
    decreases d, 60nat, 0nat,
{
    let (items, s1) = eval_items(d, s, left);
    let (parts, s2) = display_all(d, s1, items, 0, Seq::empty());
    let (v, s3) = eval_node(d, s2, right);
    let (sep, s4) = literal_string(d, s3, v);
    (ValModel::String(join_texts(parts, sep)), s4)
}

/// The entries of a walk, with each entry that is a sequence replaced by
/// the entries it has when its literal is evaluated; behind `acc`.
pub open spec fn flatten_all(d: nat, s: MachineModel, q: SequenceModel, acc: Seq<ValModel>) -> (
    Seq<ValModel>,
    MachineModel,
)
    decreases d, 57nat, s.fuel,
{
    let (x, q1, s1) = seq_next(d, s, q);
    match x {
        None => (acc, s1),
        Some(e) => {
            let (more, s2) = flatten_entry(d, s1, e);
            if s2.fuel < s.fuel {
                flatten_all(d, s2, q1, acc + more)
            } else {
                (acc, s2)
            }
        },
    }
}

/// What one entry adds to a flattened sequence.
pub open spec fn flatten_entry(d: nat, s: MachineModel, e: ValModel) -> (
    Seq<ValModel>,
    MachineModel,
)
    decreases d, 56nat, 0nat,
{
    if e is Array {
        match literal_of(e) {
            Some(n) => {
                let (v, s1) = eval_node(d, s, n);
                let (inner, s2) = literal_array(s1, v);
                collect(d, s2, inner, Seq::empty())
            },
            None => (Seq::empty(), fail(s, ErrorKind::NoLiteral, Seq::empty())),
        }
    } else {
        (seq![e], s)
    }
}

/// `:_`: the operand with the entries of its entries in their place. The
/// operand must be finite and must have a first entry that is finite as a
/// sequence.
pub open spec fn op_flatten(d: nat, s: MachineModel, left: NodeModel) -> (ValModel, MachineModel)
    decreases d, 60nat, 0nat,
{
    let (v, s1) = eval_node(d, s, left);
    let (q, s2) = literal_array(s1, v);
    if q.length is None {
        (ValModel::Empty, fail(s2, ErrorKind::InfiniteSequence, Seq::empty()))
    } else {
        let (x, _, s3) = seq_next(d, s2, q);
        match x {
            None => (ValModel::Empty, fail(s3, ErrorKind::EmptySequence, Seq::empty())),
            Some(e) => {
                let (first, s4) = literal_array(s3, e);
                if first.length is None {
                    (ValModel::Empty, fail(s4, ErrorKind::InfiniteSequence, Seq::empty()))
                } else {
                    let (items, s5) = flatten_all(d, s4, q, Seq::empty());
                    (array_of(items), s5)
                }
            },
        }
    }
}

/// The entries of the values from index `i` on, each value taken as a
/// sequence; behind `acc`.
pub open spec fn rows_of(
    d: nat,
    s: MachineModel,
    items: Seq<ValModel>,
    i: int,
    acc: Seq<Seq<ValModel>>,
) -> (Seq<Seq<ValModel>>, MachineModel)
    decreases d, 57nat, items.len() - i,
{
    if i < 0 || i >= items.len() {
        (acc, s)
    } else {
        let (q, s1) = literal_array(s, items[i]);
        let (row, s2) = collect(d, s1, q, Seq::empty());
        rows_of(d, s2, items, i + 1, acc.push(row))
    }
}

/// The length of the longest row among the first `n`.
pub open spec fn widest(rows: Seq<Seq<ValModel>>, n: int) -> nat
    decreases n,
{
    if n <= 0 || n > rows.len() {
        0
    } else {
        let w = widest(rows, n - 1);
        if rows[n - 1].len() > w {
            rows[n - 1].len()
        } else {
            w
        }
    }
}

/// The entries at index `i` of the first `n` rows that have one.
pub open spec fn column(rows: Seq<Seq<ValModel>>, i: int, n: int) -> Seq<ValModel>
    decreases n,
{
    if n <= 0 || n > rows.len() {
        Seq::empty()
    } else if 0 <= i < rows[n - 1].len() {
        column(rows, i, n - 1).push(rows[n - 1][i])
    } else {
        column(rows, i, n - 1)
    }
}

/// The columns of the rows: as many as the longest row has entries. A row
/// that is too short for a column is left out of it.
pub open spec fn transposed(rows: Seq<Seq<ValModel>>) -> Seq<Seq<ValModel>> {
    Seq::new(widest(rows, rows.len() as int), |i: int| column(rows, i, rows.len() as int))
}

/// `:%`: the operand, a sequence of sequences, with rows and columns
/// exchanged.
pub open spec fn op_transpose(d: nat, s: MachineModel, left: NodeModel) -> (ValModel, MachineModel)
    decreases d, 60nat, 0nat,
{
    let (items, s1) = eval_items(d, s, left);
    let (rows, s2) = rows_of(d, s1, items, 0, Seq::empty());
    (nested(transposed(rows)), s2)
}

/// `..` and `.=`: the numbers from the first entry of the operand to the
/// second, without or with the second itself.
pub open spec fn op_rangify(d: nat, s: MachineModel, left: NodeModel, inclusive: bool) -> (
    ValModel,
    MachineModel,
)
    decreases d, 60nat, 0nat,
{
    let (items, s1) = eval_items(d, s, left);
    if items.len() < 2 {
        (ValModel::Empty, fail(s1, ErrorKind::EmptySequence, Seq::empty()))
    } else {
        let (a, s2) = literal_num(d, s1, items[0]);
        let (lo, s3) = count_of(s2, a);
        let (b, s4) = literal_num(d, s3, items[1]);
        let (hi, s5) = count_of(s4, b);
        (
            array_of(
                numbers_from(
                    lo as int,
                    hi - lo + if inclusive {
                        1int
                    } else {
                        0int
                    },
                ),
            ),
            s5,
        )
    }
}

/// `?.`: an entry of the operand, picked at random.
pub open spec fn op_pick(d: nat, s: MachineModel, right: NodeModel) -> (ValModel, MachineModel)
    decreases d, 60nat, 0nat,
{
    let (items, s1) = eval_items(d, s, right);
    if items.len() == 0 {
        (ValModel::Empty, fail(s1, ErrorKind::EmptySequence, Seq::empty()))
    } else {
        let (a, s2) = ask(s1, RequestModel::Pick(items.len() as usize));
        match a {
            AnswerModel::Index(i) => if i < items.len() {
                (items[i as int], s2)
            } else {
                (ValModel::Empty, fail(s2, ErrorKind::BadAnswer, Seq::empty()))
            },
            _ => (ValModel::Empty, fail(s2, ErrorKind::BadAnswer, Seq::empty())),
        }
    }
}

fn search_group(ctx: &mut Machine, groups: &Vec<Vec<Dynamic>>, v: &Dynamic) -> (r: Option<usize>)
    ensures
        (
            match r {
                Some(k) => Some(k as int),
                None => None,
            },
            final(ctx).model(),
        ) == find_group(old(ctx).model(), groups_model(groups@), dyn_model(*v), 0),
        r matches Some(k) ==> k < groups@.len(),
        final(ctx).fuel == old(ctx).fuel,
        frames_kept(old(ctx).model(), final(ctx).model()),
{
    let mut i: usize = 0;
    while i < groups.len()
        invariant
            i <= groups.len(),
            find_group(old(ctx).model(), groups_model(groups@), dyn_model(*v), 0) == find_group(
                ctx.model(),
                groups_model(groups@),
                dyn_model(*v),
                i as int,
            ),
            ctx.fuel == old(ctx).fuel,
            frames_kept(old(ctx).model(), ctx.model()),
        decreases groups.len() - i,
    {
        if groups[i].len() > 0 {
            assert(groups_model(groups@)[i as int][0] == dyn_model(groups@[i as int]@[0]));
            if equal_values(ctx, &groups[i][0], v) {
                return Some(i);
            }
        }
        i += 1;
    }
    None
}

fn add_to_group(groups: &mut Vec<Vec<Dynamic>>, k: usize, v: Dynamic)
    requires
        k < old(groups)@.len(),
    ensures
        groups_model(final(groups)@) == groups_model(old(groups)@).update(
            k as int,
            groups_model(old(groups)@)[k as int].push(dyn_model(v)),
        ),
{
    let ghost before = groups_model(groups@);
    let mut g = clone_dyns(&groups[k]);
    push_value(&mut g, v);
    groups[k] = g;
    assert(groups_model(groups@) =~= before.update(k as int, before[k as int].push(dyn_model(v))));
}

fn add_group(groups: &mut Vec<Vec<Dynamic>>, v: Dynamic)
    ensures
        groups_model(final(groups)@) == groups_model(old(groups)@).push(seq![dyn_model(v)]),
{
    let mut g: Vec<Dynamic> = Vec::new();
    push_value(&mut g, v);
    assert(dyns_model(g@) =~= seq![dyn_model(v)]);
    groups.push(g);
    assert(groups_model(groups@) =~= groups_model(old(groups)@).push(seq![dyn_model(v)]));
}

/// Evaluates the operator that [`op_group`] describes.
pub fn do_group(ctx: &mut Machine, depth: usize, left: &Node) -> (r: Dynamic)
    ensures
        (dyn_model(r), final(ctx).model()) == op_group(
            depth as nat,
            old(ctx).model(),
            node_model(*left),
        ),
        final(ctx).fuel <= old(ctx).fuel,
        frames_kept(old(ctx).model(), final(ctx).model()),
    decreases depth, 60nat, 0nat,
{
    let items = parse_items(ctx, depth, left);
    let mut groups: Vec<Vec<Dynamic>> = Vec::new();
    let ghost begin = ctx.model();
    assert(groups_model(groups@) =~= Seq::<Seq<ValModel>>::empty());
    let mut i: usize = 0;
    while i < items.len()
        invariant
            i <= items.len(),
            group_all(begin, dyns_model(items@), 0, Seq::empty()) == group_all(
                ctx.model(),
                dyns_model(items@),
                i as int,
                groups_model(groups@),
            ),
            ctx.fuel <= old(ctx).fuel,
            frames_kept(old(ctx).model(), ctx.model()),
        decreases items.len() - i,
    {
        match search_group(ctx, &groups, &items[i]) {
            Some(k) => add_to_group(&mut groups, k, items[i].clone()),
            None => add_group(&mut groups, items[i].clone()),
        }
        i += 1;
    }
    nested_from(&groups)
}

fn kinds_agree(a: &Dynamic, b: &Dynamic) -> (r: bool)
    ensures
        r == same_kind(dyn_model(*a), dyn_model(*b)),
{
    match &a.val {
        Val::String(_) => b.is_string(),
        Val::Number(_) => b.is_num(),
        Val::Boolean(_) => b.is_bool(),
        Val::Array(_) => b.is_array(),
        Val::Empty => match &b.val {
            Val::Empty => true,
            _ => false,
        },
    }
}

fn was_seen(ctx: &mut Machine, seen: &Vec<Dynamic>, v: &Dynamic) -> (r: bool)
    ensures
        (r, final(ctx).model()) == seen_in(
            old(ctx).model(),
            dyns_model(seen@),
            dyn_model(*v),
            0,
        ),
        final(ctx).fuel == old(ctx).fuel,
        frames_kept(old(ctx).model(), final(ctx).model()),
{
    let mut i: usize = 0;
    while i < seen.len()
        invariant
            i <= seen.len(),
            seen_in(old(ctx).model(), dyns_model(seen@), dyn_model(*v), 0) == seen_in(
                ctx.model(),
                dyns_model(seen@),
                dyn_model(*v),
                i as int,
            ),
            ctx.fuel == old(ctx).fuel,
            frames_kept(old(ctx).model(), ctx.model()),
        decreases seen.len() - i,
    {
        if kinds_agree(&seen[i], v) {
            if equal_values(ctx, v, &seen[i]) {
                return true;
            }
        }
        i += 1;
    }
    false
}

/// Evaluates the operator that [`op_dedup`] describes.
pub fn do_dedup(ctx: &mut Machine, depth: usize, right: &Node, sieve: bool) -> (r: Dynamic)
    ensures
        (dyn_model(r), final(ctx).model()) == op_dedup(
            depth as nat,
            old(ctx).model(),
            node_model(*right),
            sieve,
        ),
        final(ctx).fuel <= old(ctx).fuel,
        frames_kept(old(ctx).model(), final(ctx).model()),
    decreases depth, 60nat, 0nat,
{
    let items = parse_items(ctx, depth, right);
    let mut seen: Vec<Dynamic> = Vec::new();
    let mut acc: Vec<Dynamic> = Vec::new();
    let ghost begin = ctx.model();
    assert(dyns_model(seen@) =~= Seq::<ValModel>::empty());
    let mut i: usize = 0;
    while i < items.len()
        invariant
            i <= items.len(),
            dedup_all(begin, dyns_model(items@), 0, Seq::empty(), Seq::empty(), sieve)
                == dedup_all(
                ctx.model(),
                dyns_model(items@),
                i as int,
                dyns_model(seen@),
                dyns_model(acc@),
                sieve,
            ),
            ctx.fuel <= old(ctx).fuel,
            frames_kept(old(ctx).model(), ctx.model()),
        decreases items.len() - i,
    {
        if was_seen(ctx, &seen, &items[i]) {
            if sieve {
                push_value(&mut acc, Dynamic::number(zero()));
            }
        } else {
            push_value(&mut seen, items[i].clone());
            if sieve {
                push_value(&mut acc, Dynamic::number(one()));
            } else {
                push_value(&mut acc, items[i].clone());
            }
        }
        i += 1;
    }
    array_from(acc)
}

/// The models of a run of texts.
pub open spec fn texts_model(parts: Seq<Vec<char>>) -> Seq<Seq<char>> {
    Seq::new(parts.len(), |i: int| parts[i]@)
}

/// The texts joined with the separator between them.
pub fn join_parts(parts: &Vec<Vec<char>>, sep: &Vec<char>) -> (r: Vec<char>)
    ensures
        r@ == join_texts(texts_model(parts@), sep@),
{
    let mut out: Vec<char> = Vec::new();
    let mut i: usize = 0;
    let ghost all = texts_model(parts@);
    while i < parts.len()
        invariant
            i <= parts.len(),
            all == texts_model(parts@),
            out@ == join_texts(all.take(i as int), sep@),
        decreases parts.len() - i,
    {
        assert(all.take(i + 1).drop_last() =~= all.take(i as int));
        assert(all.take(i + 1).last() == parts@[i as int]@);
        if i > 0 {
            append_chars(&mut out, sep);
        }
        append_chars(&mut out, &parts[i]);
        assert(i == 0 ==> out@ =~= parts@[i as int]@);
        i += 1;
    }
    assert(all.take(parts.len() as int) =~= all);
    out
}

/// Evaluates the operator that [`op_join`] describes.
pub fn do_join(ctx: &mut Machine, depth: usize, left: &Node, right: &Node) -> (r: Dynamic)
    ensures
        (dyn_model(r), final(ctx).model()) == op_join(
            depth as nat,
            old(ctx).model(),
            node_model(*left),
            node_model(*right),
        ),
        final(ctx).fuel <= old(ctx).fuel,
        frames_kept(old(ctx).model(), final(ctx).model()),
    decreases depth, 60nat, 0nat,
{
    let items = parse_items(ctx, depth, left);
    let mut parts: Vec<Vec<char>> = Vec::new();
    let ghost begin = ctx.model();
    assert(texts_model(parts@) =~= Seq::<Seq<char>>::empty());
    let mut i: usize = 0;
    while i < items.len()
        invariant
            i <= items.len(),
            display_all(depth as nat, begin, dyns_model(items@), 0, Seq::empty()) == display_all(
                depth as nat,
                ctx.model(),
                dyns_model(items@),
                i as int,
                texts_model(parts@),
            ),
            ctx.fuel <= old(ctx).fuel,
            frames_kept(old(ctx).model(), ctx.model()),
        decreases items.len() - i,
    {
        let t = print_value(ctx, depth, &items[i]);
        let ghost before = texts_model(parts@);
        parts.push(t);
        assert(texts_model(parts@) =~= before.push(t@));
        i += 1;
    }
    let v = parse_node(ctx, depth, right);
    let sep = text_of(ctx, depth, &v);
    Dynamic::text(string_of(&join_parts(&parts, &chars_of(sep.as_str()))))
}

fn append_values(out: &mut Vec<Dynamic>, more: &Vec<Dynamic>)
    ensures
        dyns_model(final(out)@) == dyns_model(old(out)@) + dyns_model(more@),
{
    let mut i: usize = 0;
    assert(dyns_model(out@) =~= dyns_model(old(out)@) + dyns_model(more@).take(0));
    while i < more.len()
        invariant
            i <= more.len(),
            dyns_model(out@) =~= dyns_model(old(out)@) + dyns_model(more@).take(i as int),
        decreases more.len() - i,
    {
        push_value(out, more[i].clone());
        i += 1;
    }
    assert(dyns_model(more@).take(more.len() as int) =~= dyns_model(more@));
}

fn flatten_one(ctx: &mut Machine, depth: usize, e: &Dynamic) -> (r: Vec<Dynamic>)
    ensures
        (dyns_model(r@), final(ctx).model()) == flatten_entry(
            depth as nat,
            old(ctx).model(),
            dyn_model(*e),
        ),
        final(ctx).fuel <= old(ctx).fuel,
        frames_kept(old(ctx).model(), final(ctx).model()),
    decreases depth, 56nat, 0nat,
{
    if e.is_array() {
        match e.into_node() {
            Some(n) => {
                let v = parse_node(ctx, depth, &n);
                let inner = array_of_value(ctx, &v);
                collect_seq(ctx, depth, inner)
            },
            None => {
                ctx.fail(ErrorKind::NoLiteral, String::new());
                let r: Vec<Dynamic> = Vec::new();
                assert(dyns_model(r@) =~= Seq::<ValModel>::empty());
                r
            },
        }
    } else {
        let mut r: Vec<Dynamic> = Vec::new();
        push_value(&mut r, e.clone());
        assert(dyns_model(r@) =~= seq![dyn_model(*e)]);
        r
    }
}

fn flatten_seq(ctx: &mut Machine, depth: usize, seq: Sequence) -> (r: Vec<Dynamic>)
    ensures
        (dyns_model(r@), final(ctx).model()) == flatten_all(
            depth as nat,
            old(ctx).model(),
            seq_model(seq),
            Seq::empty(),
        ),
        final(ctx).fuel <= old(ctx).fuel,
        frames_kept(old(ctx).model(), final(ctx).model()),
    decreases depth, 57nat, 0nat,
{
    let mut q = seq;
    let mut acc: Vec<Dynamic> = Vec::new();
    assert(dyns_model(acc@) =~= Seq::<ValModel>::empty());
    loop
        invariant
            flatten_all(depth as nat, old(ctx).model(), seq_model(seq), Seq::empty())
                == flatten_all(depth as nat, ctx.model(), seq_model(q), dyns_model(acc@)),
            ctx.fuel <= old(ctx).fuel,
            frames_kept(old(ctx).model(), ctx.model()),
        decreases ctx.fuel,
    {
        match seq_step(ctx, depth, &mut q) {
            None => {
                return acc;
            },
            Some(e) => {
                let more = flatten_one(ctx, depth, &e);
                append_values(&mut acc, &more);
            },
        }
    }
}

/// Evaluates the operator that [`op_flatten`] describes.
pub fn do_flatten(ctx: &mut Machine, depth: usize, left: &Node) -> (r: Dynamic)
    ensures
        (dyn_model(r), final(ctx).model()) == op_flatten(
            depth as nat,
            old(ctx).model(),
            node_model(*left),
        ),
        final(ctx).fuel <= old(ctx).fuel,
        frames_kept(old(ctx).model(), final(ctx).model()),
    decreases depth, 60nat, 0nat,
{
    let v = parse_node(ctx, depth, left);
    let q = array_of_value(ctx, &v);
    if q.length.is_none() {
        ctx.fail(ErrorKind::InfiniteSequence, String::new());
        return Dynamic::empty();
    }
    let mut probe = q.clone();
    match seq_step(ctx, depth, &mut probe) {
        None => {
            ctx.fail(ErrorKind::EmptySequence, String::new());
            Dynamic::empty()
        },
        Some(e) => {
            let first = array_of_value(ctx, &e);
            if first.length.is_none() {
                ctx.fail(ErrorKind::InfiniteSequence, String::new());
                Dynamic::empty()
            } else {
                array_from(flatten_seq(ctx, depth, q))
            }
        },
    }
}

fn row_length(rows: &Vec<Vec<Dynamic>>) -> (w: usize)
    ensures
        w == widest(groups_model(rows@), rows@.len() as int),
{
    let mut w: usize = 0;
    let mut i: usize = 0;
    while i < rows.len()
        invariant
            i <= rows.len(),
            w == widest(groups_model(rows@), i as int),
        decreases rows.len() - i,
    {
        if rows[i].len() > w {
            w = rows[i].len();
        }
        i += 1;
    }
    w
}

fn take_column(rows: &Vec<Vec<Dynamic>>, i: usize) -> (r: Vec<Dynamic>)
    ensures
        dyns_model(r@) == column(groups_model(rows@), i as int, rows@.len() as int),
{
    let mut out: Vec<Dynamic> = Vec::new();
    let mut k: usize = 0;
    assert(dyns_model(out@) =~= Seq::<ValModel>::empty());
    while k < rows.len()
        invariant
            k <= rows.len(),
            dyns_model(out@) == column(groups_model(rows@), i as int, k as int),
        decreases rows.len() - k,
    {
        if i < rows[k].len() {
            push_value(&mut out, rows[k][i].clone());
        }
        k += 1;
    }
    out
}

/// The columns of the rows.
pub fn transpose_rows(rows: &Vec<Vec<Dynamic>>) -> (r: Vec<Vec<Dynamic>>)
    ensures
        groups_model(r@) == transposed(groups_model(rows@)),
{
    let w = row_length(rows);
    let mut out: Vec<Vec<Dynamic>> = Vec::new();
    let mut i: usize = 0;
    while i < w
        invariant
            i <= w,
            w == widest(groups_model(rows@), rows@.len() as int),
            groups_model(out@) =~= transposed(groups_model(rows@)).take(i as int),
        decreases w - i,
    {
        let c = take_column(rows, i);
        let ghost before = groups_model(out@);
        out.push(c);
        assert(groups_model(out@) =~= before.push(dyns_model(c@)));
        i += 1;
    }
    assert(transposed(groups_model(rows@)).take(w as int) =~= transposed(groups_model(rows@)));
    out
}

/// Evaluates the operator that [`op_transpose`] describes.
pub fn do_transpose(ctx: &mut Machine, depth: usize, left: &Node) -> (r: Dynamic)
    ensures
        (dyn_model(r), final(ctx).model()) == op_transpose(
            depth as nat,
            old(ctx).model(),
            node_model(*left),
        ),
        final(ctx).fuel <= old(ctx).fuel,
        frames_kept(old(ctx).model(), final(ctx).model()),
    decreases depth, 60nat, 0nat,
{
    let items = parse_items(ctx, depth, left);
    let mut rows: Vec<Vec<Dynamic>> = Vec::new();
    let ghost begin = ctx.model();
    assert(groups_model(rows@) =~= Seq::<Seq<ValModel>>::empty());
    let mut i: usize = 0;
    while i < items.len()
        invariant
            i <= items.len(),
            rows_of(depth as nat, begin, dyns_model(items@), 0, Seq::empty()) == rows_of(
                depth as nat,
                ctx.model(),
                dyns_model(items@),
                i as int,
                groups_model(rows@),
            ),
            ctx.fuel <= old(ctx).fuel,
            frames_kept(old(ctx).model(), ctx.model()),
        decreases items.len() - i,
    {
        let q = array_of_value(ctx, &items[i]);
        let row = collect_seq(ctx, depth, q);
        let ghost before = groups_model(rows@);
        rows.push(row);
        assert(groups_model(rows@) =~= before.push(dyns_model(row@)));
        i += 1;
    }
    nested_from(&transpose_rows(&rows))
}

/// Evaluates the operator that [`op_rangify`] describes.
pub fn do_rangify(ctx: &mut Machine, depth: usize, left: &Node, inclusive: bool) -> (r: Dynamic)
    ensures
        (dyn_model(r), final(ctx).model()) == op_rangify(
            depth as nat,
            old(ctx).model(),
            node_model(*left),
            inclusive,
        ),
        final(ctx).fuel <= old(ctx).fuel,
        frames_kept(old(ctx).model(), final(ctx).model()),
    decreases depth, 60nat, 0nat,
{
    let items = parse_items(ctx, depth, left);
    if items.len() < 2 {
        ctx.fail(ErrorKind::EmptySequence, String::new());
        return Dynamic::empty();
    }
    let a = num_of(ctx, depth, &items[0]);
    let lo = number_count(ctx, &a);
    let b = num_of(ctx, depth, &items[1]);
    let hi = number_count(ctx, &b);
    let n: u64 = if hi >= lo {
        (hi - lo) as u64 + if inclusive {
            1
        } else {
            0
        }
    } else {
        0
    };
    array_from(number_run(lo as u64, n))
}

/// Evaluates the operator that [`op_pick`] describes.
pub fn do_pick(ctx: &mut Machine, depth: usize, right: &Node) -> (r: Dynamic)
    ensures
        (dyn_model(r), final(ctx).model()) == op_pick(
            depth as nat,
            old(ctx).model(),
            node_model(*right),
        ),
        final(ctx).fuel <= old(ctx).fuel,
        frames_kept(old(ctx).model(), final(ctx).model()),
    decreases depth, 60nat, 0nat,
{
    let items = parse_items(ctx, depth, right);
    if items.len() == 0 {
        ctx.fail(ErrorKind::EmptySequence, String::new());
        return Dynamic::empty();
    }
    let a = ctx.ask(Request::Pick(items.len()));
    match a {
        Answer::Index(i) => {
            if i < items.len() {
                items[i].clone()
            } else {
                ctx.fail(ErrorKind::BadAnswer, String::new());
                Dynamic::empty()
            }
        },
        _ => {
            ctx.fail(ErrorKind::BadAnswer, String::new());
            Dynamic::empty()
        },
    }
}

} // verus!
