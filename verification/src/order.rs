//! The order of values, and sorting by it.

use crate::eval::{
    array_from, array_of_value, bool_of, collect, collect_seq, compare, compare_numbers,
    literal_array, literal_bool, literal_num, literal_string, num_of, text_of, truth,
};
use crate::machine::{
    Answer, AnswerModel, ask, ErrorKind, fail, frames_kept, Machine, MachineModel, Order, Request,
    RequestModel,
};
use crate::seqops::{eval_items, parse_items};
use crate::text::chars_of;
use crate::tokens::{node_model, Node, NodeModel, Num};
use crate::types::{dyn_model, dyns_model, Dynamic, Val, ValModel};
use crate::values::{array_of, truth_numeral};
use vstd::prelude::*;

verus! {

/// The order of two texts: by the first character in which they differ,
/// and a text before every longer text that starts with it.
pub open spec fn text_order(a: Seq<char>, b: Seq<char>) -> Order
    decreases a.len(),
{
    if a.len() == 0 && b.len() == 0 {
        Order::Equal
    } else if a.len() == 0 {
        Order::Less
    } else if b.len() == 0 {
        Order::Greater
    } else if a[0] < b[0] {
        Order::Less
    } else if a[0] > b[0] {
        Order::Greater
    } else {
        text_order(a.skip(1), b.skip(1))
    }
}

/// The order of two truth values: false before true.
pub open spec fn truth_order(a: bool, b: bool) -> Order {
    if a == b {
        Order::Equal
    } else if b {
        Order::Less
    } else {
        Order::Greater
    }
}

/// The order of two lengths.
pub open spec fn length_order(a: nat, b: nat) -> Order {
    if a < b {
        Order::Less
    } else if a > b {
        Order::Greater
    } else {
        Order::Equal
    }
}

/// How a number compares to the number that a text denotes; a text that
/// denotes none is unordered. With `flip` the text comes first.
pub open spec fn text_number_order(s: MachineModel, t: Seq<char>, n: Seq<char>, flip: bool) -> (
    Order,
    MachineModel,
) {
    let (a, s1) = ask(s, RequestModel::Parse(t));
    match a {
        AnswerModel::Number(x) => if flip {
            compare(s1, x, n)
        } else {
            compare(s1, n, x)
        },
        AnswerModel::Invalid => (Order::Unordered, s1),
        _ => (Order::Unordered, fail(s1, ErrorKind::BadAnswer, Seq::empty())),
    }
}

/// How the first value compares to the second. If either is a number, they
/// are compared as numbers. Two texts are compared as texts, and a text and
/// a boolean as the text and the text `1` or `0`. A sequence is compared by
/// the count of its entries. The empty value compares to nothing.
pub open spec fn value_order(d: nat, s: MachineModel, a: ValModel, b: ValModel) -> (
    Order,
    MachineModel,
)
    decreases d, 35nat, 0nat,
{
    match a {
        ValModel::String(x) => match b {
            ValModel::String(y) => (text_order(x, y), s),
            ValModel::Number(n) => text_number_order(s, x, n, true),
            ValModel::Boolean(t) => (text_order(x, truth_numeral(t)), s),
            _ => {
                let (y, s1) = literal_string(d, s, b);
                (text_order(x, y), s1)
            },
        },
        ValModel::Number(n) => match b {
            ValModel::String(y) => text_number_order(s, y, n, false),
            ValModel::Number(m) => compare(s, n, m),
            ValModel::Boolean(t) => compare(s, n, truth_numeral(t)),
            _ => {
                let (m, s1) = literal_num(d, s, b);
                compare(s1, n, m)
            },
        },
        ValModel::Boolean(t) => match b {
            ValModel::Number(n) => compare(s, truth_numeral(t), n),
            ValModel::Boolean(u) => (truth_order(t, u), s),
            _ => {
                let (u, s1) = literal_bool(d, s, b);
                (truth_order(t, u), s1)
            },
        },
        ValModel::Array(q) => {
            let (xs, s1) = collect(d, s, *q, Seq::empty());
            let (other, s2) = literal_array(s1, b);
            let (ys, s3) = collect(d, s2, other, Seq::empty());
            (length_order(xs.len(), ys.len()), s3)
        },
        ValModel::Empty => (Order::Unordered, s),
    }
}

/// The place where a value goes into a sorted run: in front of the entries
/// at the end that come after it. Two values that do not compare cannot be
/// sorted.
pub open spec fn sink(
    d: nat,
    s: MachineModel,
    sorted: Seq<ValModel>,
    v: ValModel,
    i: int,
    descending: bool,
) -> (int, MachineModel)
    decreases d, 36nat, i,
{
    if i <= 0 || i > sorted.len() {
        (0, s)
    } else {
        let (o, s1) = if descending {
            value_order(d, s, v, sorted[i - 1])
        } else {
            value_order(d, s, sorted[i - 1], v)
        };
        if o == Order::Unordered {
            (i, fail(s1, ErrorKind::Incomparable, Seq::empty()))
        } else if o == Order::Greater {
            sink(d, s1, sorted, v, i - 1, descending)
        } else {
            (i, s1)
        }
    }
}

/// The values from index `k` on put into the sorted run, one by one.
pub open spec fn sort_all(
    d: nat,
    s: MachineModel,
    items: Seq<ValModel>,
    k: int,
    sorted: Seq<ValModel>,
    descending: bool,
) -> (Seq<ValModel>, MachineModel)
    decreases d, 37nat, items.len() - k,
{
    if k < 0 || k >= items.len() {
        (sorted, s)
    } else {
        let (pos, s1) = sink(d, s, sorted, items[k], sorted.len() as int, descending);
        if 0 <= pos <= sorted.len() {
            sort_all(d, s1, items, k + 1, sorted.insert(pos, items[k]), descending)
        } else {
            (sorted, s1)
        }
    }
}

/// `:<` and `:>`: the entries of the operand in ascending or descending
/// order; entries that compare equal keep their order.
pub open spec fn op_sort(d: nat, s: MachineModel, right: NodeModel, descending: bool) -> (
    ValModel,
    MachineModel,
)
    decreases d, 60nat, 0nat,
{
    let (items, s1) = eval_items(d, s, right);
    let (sorted, s2) = sort_all(d, s1, items, 0, Seq::empty(), descending);
    (array_of(sorted), s2)
}

/// The order of two texts.
pub fn order_texts(a: &Vec<char>, b: &Vec<char>) -> (r: Order)
    ensures
        r == text_order(a@, b@),
{
    let mut i: usize = 0;
    assert(a@.skip(0) =~= a@ && b@.skip(0) =~= b@);
    loop
        invariant
            i <= a.len(),
            i <= b.len(),
            text_order(a@, b@) == text_order(a@.skip(i as int), b@.skip(i as int)),
        decreases a.len() - i,
    {
        if i == a.len() && i == b.len() {
            return Order::Equal;
        } else if i == a.len() {
            return Order::Less;
        } else if i == b.len() {
            return Order::Greater;
        } else if a[i] < b[i] {
            return Order::Less;
        } else if a[i] > b[i] {
            return Order::Greater;
        }
        assert(a@.skip(i as int).skip(1) =~= a@.skip(i + 1));
        assert(b@.skip(i as int).skip(1) =~= b@.skip(i + 1));
        i += 1;
    }
}

fn order_truths(a: bool, b: bool) -> (r: Order)
    ensures
        r == truth_order(a, b),
{
    if a == b {
        Order::Equal
    } else if b {
        Order::Less
    } else {
        Order::Greater
    }
}

fn order_text_number(ctx: &mut Machine, t: &String, n: &Num, flip: bool) -> (r: Order)
    ensures
        (r, final(ctx).model()) == text_number_order(old(ctx).model(), t@, n.text@, flip),
        final(ctx).fuel == old(ctx).fuel,
        frames_kept(old(ctx).model(), final(ctx).model()),
{
    let a = ctx.ask(Request::Parse(t.clone()));
    match a {
        Answer::Number(x) => if flip {
            compare_numbers(ctx, &x, n)
        } else {
            compare_numbers(ctx, n, &x)
        },
        Answer::Invalid => Order::Unordered,
        _ => {
            ctx.fail(ErrorKind::BadAnswer, String::new());
            Order::Unordered
        },
    }
}

/// How the first value compares to the second.
pub fn order_values(ctx: &mut Machine, depth: usize, a: &Dynamic, b: &Dynamic) -> (r: Order)
    ensures
        (r, final(ctx).model()) == value_order(
            depth as nat,
            old(ctx).model(),
            dyn_model(*a),
            dyn_model(*b),
        ),
        final(ctx).fuel <= old(ctx).fuel,
        frames_kept(old(ctx).model(), final(ctx).model()),
    decreases depth, 35nat, 0nat,
{
    match &a.val {
        Val::String(x) => match &b.val {
            Val::String(y) => order_texts(&chars_of(x.as_str()), &chars_of(y.as_str())),
            Val::Number(n) => order_text_number(ctx, x, n, true),
            Val::Boolean(t) => order_texts(
                &chars_of(x.as_str()),
                &chars_of(truth(*t).text.as_str()),
            ),
            _ => {
                let y = text_of(ctx, depth, b);
                order_texts(&chars_of(x.as_str()), &chars_of(y.as_str()))
            },
        },
        Val::Number(n) => match &b.val {
            Val::String(y) => order_text_number(ctx, y, n, false),
            Val::Number(m) => compare_numbers(ctx, n, m),
            Val::Boolean(t) => compare_numbers(ctx, n, &truth(*t)),
            _ => {
                let m = num_of(ctx, depth, b);
                compare_numbers(ctx, n, &m)
            },
        },
        Val::Boolean(t) => match &b.val {
            Val::Number(n) => compare_numbers(ctx, &truth(*t), n),
            Val::Boolean(u) => order_truths(*t, *u),
            _ => {
                let u = bool_of(ctx, depth, b);
                order_truths(*t, u)
            },
        },
        Val::Array(q) => {
            let xs = collect_seq(ctx, depth, (**q).clone());
            let other = array_of_value(ctx, b);
            let ys = collect_seq(ctx, depth, other);
            if xs.len() < ys.len() {
                Order::Less
            } else if xs.len() > ys.len() {
                Order::Greater
            } else {
                Order::Equal
            }
        },
        Val::Empty => Order::Unordered,
    }
}

fn find_place(
    ctx: &mut Machine,
    depth: usize,
    sorted: &Vec<Dynamic>,
    v: &Dynamic,
    descending: bool,
) -> (r: usize)
    ensures
        (r as int, final(ctx).model()) == sink(
            depth as nat,
            old(ctx).model(),
            dyns_model(sorted@),
            dyn_model(*v),
            sorted@.len() as int,
            descending,
        ),
        r <= sorted@.len(),
        final(ctx).fuel <= old(ctx).fuel,
        frames_kept(old(ctx).model(), final(ctx).model()),
    decreases depth, 36nat, 0nat,
{
    let mut i: usize = sorted.len();
    while i > 0
        invariant
            i <= sorted@.len(),
            sink(
                depth as nat,
                old(ctx).model(),
                dyns_model(sorted@),
                dyn_model(*v),
                sorted@.len() as int,
                descending,
            ) == sink(
                depth as nat,
                ctx.model(),
                dyns_model(sorted@),
                dyn_model(*v),
                i as int,
                descending,
            ),
            ctx.fuel <= old(ctx).fuel,
            frames_kept(old(ctx).model(), ctx.model()),
        decreases i,
    {
        let o = if descending {
            order_values(ctx, depth, v, &sorted[i - 1])
        } else {
            order_values(ctx, depth, &sorted[i - 1], v)
        };
        if o == Order::Unordered {
            ctx.fail(ErrorKind::Incomparable, String::new());
            return i;
        } else if o == Order::Greater {
            i -= 1;
        } else {
            return i;
        }
    }
    0
}

/// Evaluates the operator that [`op_sort`] describes.
pub fn do_sort(ctx: &mut Machine, depth: usize, right: &Node, descending: bool) -> (r: Dynamic)
    ensures
        (dyn_model(r), final(ctx).model()) == op_sort(
            depth as nat,
            old(ctx).model(),
            node_model(*right),
            descending,
        ),
        final(ctx).fuel <= old(ctx).fuel,
        frames_kept(old(ctx).model(), final(ctx).model()),
    decreases depth, 60nat, 0nat,
{
    let items = parse_items(ctx, depth, right);
    let mut sorted: Vec<Dynamic> = Vec::new();
    let ghost begin = ctx.model();
    assert(dyns_model(sorted@) =~= Seq::<ValModel>::empty());
    let mut k: usize = 0;
    while k < items.len()
        invariant
            k <= items.len(),
            sort_all(depth as nat, begin, dyns_model(items@), 0, Seq::empty(), descending)
                == sort_all(
                depth as nat,
                ctx.model(),
                dyns_model(items@),
                k as int,
                dyns_model(sorted@),
                descending,
            ),
            ctx.fuel <= old(ctx).fuel,
            frames_kept(old(ctx).model(), ctx.model()),
        decreases items.len() - k,
    {
        let pos = find_place(ctx, depth, &sorted, &items[k], descending);
        let ghost before = dyns_model(sorted@);
        let v = items[k].clone();
        sorted.insert(pos, v);
        assert(dyns_model(sorted@) =~= before.insert(pos as int, dyn_model(v)));
        k += 1;
    }
    array_from(sorted)
}

} // verus!
