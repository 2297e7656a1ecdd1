//! The operators on single values: arithmetic, comparison, logic, and the
//! equality of values.

use crate::eval::{
    bool_of, compare, compare_numbers, count_value, eval_node, get_var, literal_bool, literal_num,
    num_of, one, parse_node, to_u32, value_of,
};
use crate::machine::{
    Answer, AnswerModel, ask, BinaryOp, bind, ErrorKind, fail, frames_kept, Machine, MachineModel,
    Order, Request, RequestModel, UnaryOp,
};
use crate::ops::OpCode;
use crate::text::{chars_of, string_of, trimmed};
use crate::tokens::{lemma_node_model, node_model, Node, NodeModel, Num};
use crate::types::{dyn_model, BindingModel, Dynamic, Val, ValModel};
use crate::values::truth_numeral;
use vstd::prelude::*;

verus! {

/// The result of an operation on one number.
pub open spec fn unary(s: MachineModel, op: UnaryOp, n: Seq<char>) -> (Seq<char>, MachineModel) {
    let (a, s1) = ask(s, RequestModel::Unary(op, n));
    match a {
        AnswerModel::Number(r) => (r, s1),
        _ => (seq!['0'], fail(s1, ErrorKind::BadAnswer, Seq::empty())),
    }
}

/// The result of an operation on two numbers.
pub open spec fn binary(s: MachineModel, op: BinaryOp, a: Seq<char>, b: Seq<char>) -> (
    Seq<char>,
    MachineModel,
) {
    let (r, s1) = ask(s, RequestModel::Binary(op, a, b));
    match r {
        AnswerModel::Number(r) => (r, s1),
        _ => (seq!['0'], fail(s1, ErrorKind::BadAnswer, Seq::empty())),
    }
}

/// A value as a number, with an operation applied to it.
pub open spec fn apply_unary(d: nat, s: MachineModel, v: ValModel, op: UnaryOp) -> (
    ValModel,
    MachineModel,
)
    decreases d, 50nat, 0nat,
{
    let (n, s1) = literal_num(d, s, v);
    let (r, s2) = unary(s1, op, n);
    (ValModel::Number(r), s2)
}

/// A value as a number, combined with a second number.
pub open spec fn apply_binary(
    d: nat,
    s: MachineModel,
    v: ValModel,
    op: BinaryOp,
    other: Seq<char>,
) -> (ValModel, MachineModel)
    decreases d, 50nat, 0nat,
{
    let (n, s1) = literal_num(d, s, v);
    let (r, s2) = binary(s1, op, n, other);
    (ValModel::Number(r), s2)
}

/// `left op right` for the arithmetic operators: both sides are evaluated,
/// the right one is taken as a number, then the left one, and the backend
/// computes.
pub open spec fn op_arith(d: nat, s: MachineModel, left: NodeModel, right: NodeModel, op: BinaryOp)
    -> (ValModel, MachineModel)
    decreases d, 60nat, 0nat,
{
    let (l, s1) = eval_node(d, s, left);
    let (r, s2) = eval_node(d, s1, right);
    let (rn, s3) = literal_num(d, s2, r);
    apply_binary(d, s3, l, op, rn)
}

/// An operation on the number that the operand evaluates to.
pub open spec fn op_unary(d: nat, s: MachineModel, operand: NodeModel, op: UnaryOp) -> (
    ValModel,
    MachineModel,
)
    decreases d, 60nat, 0nat,
{
    let (v, s1) = eval_node(d, s, operand);
    apply_unary(d, s1, v, op)
}

/// The number that the operand evaluates to, combined with a constant.
pub open spec fn op_scale(
    d: nat,
    s: MachineModel,
    operand: NodeModel,
    op: BinaryOp,
    factor: Seq<char>,
) -> (ValModel, MachineModel)
    decreases d, 60nat, 0nat,
{
    let (v, s1) = eval_node(d, s, operand);
    apply_binary(d, s1, v, op, factor)
}

/// `++` and `--`: one more or one less than the operand. If the operand is
/// a name, the name stands for the result from then on.
pub open spec fn op_step(d: nat, s: MachineModel, operand: NodeModel, op: BinaryOp) -> (
    ValModel,
    MachineModel,
)
    decreases d, 61nat, 0nat,
{
    match operand {
        NodeModel::Variable(name) => {
            let (v, s1) = get_var(d, s, name);
            let (r, s2) = apply_binary(d, s1, v, op, seq!['1']);
            (r, bind(s2, trimmed(name), BindingModel::Value(r)))
        },
        _ => op_scale(d, s, operand, op, seq!['1']),
    }
}

/// Whether an outcome of a comparison is what the comparison operator asks
/// for.
pub open spec fn holds(code: OpCode, o: Order) -> bool {
    match code {
        OpCode::Less => o == Order::Less,
        OpCode::LessEqual => o == Order::Less || o == Order::Equal,
        OpCode::Greater => o == Order::Greater,
        OpCode::GreaterEqual => o == Order::Greater || o == Order::Equal,
        _ => false,
    }
}

/// `<`, `<=`, `>`, `>=`: both sides as numbers, compared by the backend.
pub open spec fn op_compare(
    d: nat,
    s: MachineModel,
    left: NodeModel,
    right: NodeModel,
    code: OpCode,
) -> (ValModel, MachineModel)
    decreases d, 60nat, 0nat,
{
    let (l, s1) = eval_node(d, s, left);
    let (ln, s2) = literal_num(d, s1, l);
    let (r, s3) = eval_node(d, s2, right);
    let (rn, s4) = literal_num(d, s3, r);
    let (o, s5) = compare(s4, ln, rn);
    (ValModel::Boolean(holds(code, o)), s5)
}

/// `!`: the operand as a truth value, negated.
pub open spec fn op_not(d: nat, s: MachineModel, operand: NodeModel) -> (ValModel, MachineModel)
    decreases d, 60nat, 0nat,
{
    let (v, s1) = eval_node(d, s, operand);
    let (b, s2) = literal_bool(d, s1, v);
    (ValModel::Boolean(!b), s2)
}

/// Whether both values are true; the second is looked at only if the first
/// is true.
pub open spec fn both(d: nat, s: MachineModel, l: ValModel, r: ValModel) -> (bool, MachineModel)
    decreases d, 50nat, 0nat,
{
    let (a, s1) = literal_bool(d, s, l);
    if a {
        literal_bool(d, s1, r)
    } else {
        (false, s1)
    }
}

/// `&&`: both sides are evaluated. If either is a boolean, the result is the
/// boolean that tells whether both are true. Otherwise it is the right side
/// if both are true, and the left side if not.
pub open spec fn op_and(d: nat, s: MachineModel, left: NodeModel, right: NodeModel) -> (
    ValModel,
    MachineModel,
)
    decreases d, 60nat, 0nat,
{
    let (l, s1) = eval_node(d, s, left);
    let (r, s2) = eval_node(d, s1, right);
    let (b, s3) = both(d, s2, l, r);
    if (l is Boolean && r is Boolean) || (!(l is Boolean) && r is Boolean) {
        (ValModel::Boolean(b), s3)
    } else if b {
        (r, s3)
    } else {
        (l, s3)
    }
}

/// `||`: both sides are evaluated; the result is the left side if it is
/// true, else the right side if that is true, else false.
pub open spec fn op_or(d: nat, s: MachineModel, left: NodeModel, right: NodeModel) -> (
    ValModel,
    MachineModel,
)
    decreases d, 60nat, 0nat,
{
    let (l, s1) = eval_node(d, s, left);
    let (r, s2) = eval_node(d, s1, right);
    let (a, s3) = literal_bool(d, s2, l);
    if a {
        (l, s3)
    } else {
        let (b, s4) = literal_bool(d, s3, r);
        if b {
            (r, s4)
        } else {
            (ValModel::Boolean(false), s4)
        }
    }
}

/// `^*`: whether the square root of the operand is an integer.
pub open spec fn op_is_square(d: nat, s: MachineModel, operand: NodeModel) -> (
    ValModel,
    MachineModel,
)
    decreases d, 60nat, 0nat,
{
    let (v, s1) = eval_node(d, s, operand);
    let (n, s2) = literal_num(d, s1, v);
    let (r, s3) = unary(s2, UnaryOp::Sqrt, n);
    let (a, s4) = ask(s3, RequestModel::IsInteger(r));
    match a {
        AnswerModel::Flag(b) => (ValModel::Boolean(b), s4),
        _ => (ValModel::Boolean(false), fail(s4, ErrorKind::BadAnswer, Seq::empty())),
    }
}

/// A text `n` times in a row.
pub open spec fn repeat(t: Seq<char>, n: nat) -> Seq<char>
    decreases n,
{
    if n == 0 {
        Seq::empty()
    } else {
        repeat(t, (n - 1) as nat) + t
    }
}

/// The product that is left to build: `acc` times `base`, once for each
/// index from `i` up to `n`.
pub open spec fn pow_from(s: MachineModel, acc: Seq<char>, base: Seq<char>, i: nat, n: nat) -> (
    Seq<char>,
    MachineModel,
)
    decreases n - i,
{
    if i >= n {
        (acc, s)
    } else {
        let (r, s1) = binary(s, BinaryOp::Mul, acc, base);
        pow_from(s1, r, base, i + 1, n)
    }
}

/// `^`: a text on the left is repeated as often as the right side says; any
/// other value is taken as a number and multiplied by itself, once less than
/// the right side says.
pub open spec fn op_pow(d: nat, s: MachineModel, left: NodeModel, right: NodeModel) -> (
    ValModel,
    MachineModel,
)
    decreases d, 60nat, 0nat,
{
    let (l, s1) = eval_node(d, s, left);
    match l {
        ValModel::String(t) => {
            let (c, s2) = count_value(d, s1, right);
            (ValModel::String(repeat(t, c as nat)), s2)
        },
        _ => {
            let (n, s2) = literal_num(d, s1, l);
            let (c, s3) = count_value(d, s2, right);
            let (r, s4) = pow_from(s3, n, n, 1, c as nat);
            (ValModel::Number(r), s4)
        },
    }
}

/// Whether a number equals the number that a text denotes; a text that
/// denotes none equals no number.
pub open spec fn text_equals_number(s: MachineModel, t: Seq<char>, n: Seq<char>) -> (
    bool,
    MachineModel,
) {
    let (a, s1) = ask(s, RequestModel::Parse(t));
    match a {
        AnswerModel::Number(x) => {
            let (o, s2) = compare(s1, x, n);
            (o == Order::Equal, s2)
        },
        AnswerModel::Invalid => (false, s1),
        _ => (false, fail(s1, ErrorKind::BadAnswer, Seq::empty())),
    }
}

/// Whether a number equals the number of a truth value: 1 for true, 0 for
/// false.
pub open spec fn number_equals_truth(s: MachineModel, n: Seq<char>, b: bool) -> (
    bool,
    MachineModel,
) {
    let (o, s1) = compare(s, n, truth_numeral(b));
    (o == Order::Equal, s1)
}

/// Whether two values are equal. Texts are equal if they are the same,
/// numbers if the backend says so, booleans if they are the same. A text
/// and a number are equal if the text denotes that number. A boolean and a
/// value of another kind are equal if that value is 1 for true or 0 for
/// false: the text `1` or `0`, or a number that the backend finds equal to 1
/// or 0; whichever of the two stands first. The empty value equals itself
/// only. A sequence on the left cannot be compared.
pub open spec fn values_equal(s: MachineModel, a: ValModel, b: ValModel) -> (bool, MachineModel) {
    match a {
        ValModel::String(x) => match b {
            ValModel::String(y) => (x == y, s),
            ValModel::Number(n) => text_equals_number(s, x, n),
            ValModel::Boolean(t) => (x == truth_numeral(t), s),
            _ => (false, s),
        },
        ValModel::Number(n) => match b {
            ValModel::String(y) => text_equals_number(s, y, n),
            ValModel::Number(m) => {
                let (o, s1) = compare(s, n, m);
                (o == Order::Equal, s1)
            },
            ValModel::Boolean(t) => number_equals_truth(s, n, t),
            _ => (false, s),
        },
        ValModel::Boolean(t) => match b {
            ValModel::String(y) => (y == truth_numeral(t), s),
            ValModel::Number(n) => number_equals_truth(s, n, t),
            ValModel::Boolean(u) => (t == u, s),
            _ => (false, s),
        },
        ValModel::Array(_) => (false, fail(s, ErrorKind::Incomparable, Seq::empty())),
        ValModel::Empty => (b is Empty, s),
    }
}

/// `=` and `!=`: both sides are evaluated and compared.
pub open spec fn op_equal(
    d: nat,
    s: MachineModel,
    left: NodeModel,
    right: NodeModel,
    negate: bool,
) -> (ValModel, MachineModel)
    decreases d, 60nat, 0nat,
{
    let (l, s1) = eval_node(d, s, left);
    let (r, s2) = eval_node(d, s1, right);
    let (e, s3) = values_equal(s2, l, r);
    (ValModel::Boolean(e != negate), s3)
}

/// Asks the backend for the result of an operation on one number.
pub fn unary_number(ctx: &mut Machine, op: UnaryOp, n: &Num) -> (r: Num)
    ensures
        (r.text@, final(ctx).model()) == unary(old(ctx).model(), op, n.text@),
        final(ctx).fuel == old(ctx).fuel,
        frames_kept(old(ctx).model(), final(ctx).model()),
{
    let a = ctx.ask(Request::Unary(op, n.clone()));
    match a {
        Answer::Number(r) => r,
        _ => {
            ctx.fail(ErrorKind::BadAnswer, String::new());
            crate::eval::zero()
        },
    }
}

/// Asks the backend for the result of an operation on two numbers.
pub fn binary_number(ctx: &mut Machine, op: BinaryOp, a: &Num, b: &Num) -> (r: Num)
    ensures
        (r.text@, final(ctx).model()) == binary(old(ctx).model(), op, a.text@, b.text@),
        final(ctx).fuel == old(ctx).fuel,
        frames_kept(old(ctx).model(), final(ctx).model()),
{
    let r = ctx.ask(Request::Binary(op, a.clone(), b.clone()));
    match r {
        Answer::Number(r) => r,
        _ => {
            ctx.fail(ErrorKind::BadAnswer, String::new());
            crate::eval::zero()
        },
    }
}

/// A value as a number, with an operation applied to it.
pub fn mutate_num(ctx: &mut Machine, depth: usize, v: &Dynamic, op: UnaryOp) -> (r: Dynamic)
    ensures
        (dyn_model(r), final(ctx).model()) == apply_unary(
            depth as nat,
            old(ctx).model(),
            dyn_model(*v),
            op,
        ),
        final(ctx).fuel <= old(ctx).fuel,
        frames_kept(old(ctx).model(), final(ctx).model()),
    decreases depth, 50nat, 0nat,
{
    let n = num_of(ctx, depth, v);
    Dynamic::number(unary_number(ctx, op, &n))
}

/// A value as a number, combined with a second number.
pub fn combine_num(ctx: &mut Machine, depth: usize, v: &Dynamic, op: BinaryOp, other: &Num) -> (r:
    Dynamic)
    ensures
        (dyn_model(r), final(ctx).model()) == apply_binary(
            depth as nat,
            old(ctx).model(),
            dyn_model(*v),
            op,
            other.text@,
        ),
        final(ctx).fuel <= old(ctx).fuel,
        frames_kept(old(ctx).model(), final(ctx).model()),
    decreases depth, 50nat, 0nat,
{
    let n = num_of(ctx, depth, v);
    Dynamic::number(binary_number(ctx, op, &n, other))
}

/// Evaluates the operator that [`op_arith`] describes.
pub fn do_arith(ctx: &mut Machine, depth: usize, left: &Node, right: &Node, op: BinaryOp) -> (r:
    Dynamic)
    ensures
        (dyn_model(r), final(ctx).model()) == op_arith(
            depth as nat,
            old(ctx).model(),
            node_model(*left),
            node_model(*right),
            op,
        ),
        final(ctx).fuel <= old(ctx).fuel,
        frames_kept(old(ctx).model(), final(ctx).model()),
    decreases depth, 60nat, 0nat,
{
    let l = parse_node(ctx, depth, left);
    let r = parse_node(ctx, depth, right);
    let rn = num_of(ctx, depth, &r);
    combine_num(ctx, depth, &l, op, &rn)
}

/// Evaluates the operator that [`op_unary`] describes.
pub fn do_unary(ctx: &mut Machine, depth: usize, operand: &Node, op: UnaryOp) -> (r: Dynamic)
    ensures
        (dyn_model(r), final(ctx).model()) == op_unary(
            depth as nat,
            old(ctx).model(),
            node_model(*operand),
            op,
        ),
        final(ctx).fuel <= old(ctx).fuel,
        frames_kept(old(ctx).model(), final(ctx).model()),
    decreases depth, 60nat, 0nat,
{
    let v = parse_node(ctx, depth, operand);
    mutate_num(ctx, depth, &v, op)
}

/// Evaluates the operator that [`op_scale`] describes.
pub fn do_scale(ctx: &mut Machine, depth: usize, operand: &Node, op: BinaryOp, factor: &Num) -> (r:
    Dynamic)
    ensures
        (dyn_model(r), final(ctx).model()) == op_scale(
            depth as nat,
            old(ctx).model(),
            node_model(*operand),
            op,
            factor.text@,
        ),
        final(ctx).fuel <= old(ctx).fuel,
        frames_kept(old(ctx).model(), final(ctx).model()),
    decreases depth, 60nat, 0nat,
{
    let v = parse_node(ctx, depth, operand);
    combine_num(ctx, depth, &v, op, factor)
}

/// Evaluates the operator that [`op_step`] describes.
pub fn do_step(ctx: &mut Machine, depth: usize, operand: &Node, op: BinaryOp) -> (r: Dynamic)
    ensures
        (dyn_model(r), final(ctx).model()) == op_step(
            depth as nat,
            old(ctx).model(),
            node_model(*operand),
            op,
        ),
        final(ctx).fuel <= old(ctx).fuel,
        frames_kept(old(ctx).model(), final(ctx).model()),
    decreases depth, 61nat, 0nat,
{
    match operand {
        Node::Variable(name) => {
            let v = value_of(ctx, depth, name.as_str());
            let r = combine_num(ctx, depth, &v, op, &one());
            ctx.define_var(name.as_str(), r.clone());
            r
        },
        _ => {
            proof {
                lemma_node_model(*operand);
            }
            do_scale(ctx, depth, operand, op, &one())
        },
    }
}

fn order_holds(code: OpCode, o: Order) -> (r: bool)
    ensures
        r == holds(code, o),
{
    match code {
        OpCode::Less => o == Order::Less,
        OpCode::LessEqual => o == Order::Less || o == Order::Equal,
        OpCode::Greater => o == Order::Greater,
        OpCode::GreaterEqual => o == Order::Greater || o == Order::Equal,
        _ => false,
    }
}

/// Evaluates the operator that [`op_compare`] describes.
pub fn do_compare(ctx: &mut Machine, depth: usize, left: &Node, right: &Node, code: OpCode) -> (r:
    Dynamic)
    ensures
        (dyn_model(r), final(ctx).model()) == op_compare(
            depth as nat,
            old(ctx).model(),
            node_model(*left),
            node_model(*right),
            code,
        ),
        final(ctx).fuel <= old(ctx).fuel,
        frames_kept(old(ctx).model(), final(ctx).model()),
    decreases depth, 60nat, 0nat,
{
    let l = parse_node(ctx, depth, left);
    let ln = num_of(ctx, depth, &l);
    let r = parse_node(ctx, depth, right);
    let rn = num_of(ctx, depth, &r);
    let o = compare_numbers(ctx, &ln, &rn);
    Dynamic::boolean(order_holds(code, o))
}

/// Evaluates the operator that [`op_not`] describes.
pub fn do_not(ctx: &mut Machine, depth: usize, operand: &Node) -> (r: Dynamic)
    ensures
        (dyn_model(r), final(ctx).model()) == op_not(
            depth as nat,
            old(ctx).model(),
            node_model(*operand),
        ),
        final(ctx).fuel <= old(ctx).fuel,
        frames_kept(old(ctx).model(), final(ctx).model()),
    decreases depth, 60nat, 0nat,
{
    let v = parse_node(ctx, depth, operand);
    let b = bool_of(ctx, depth, &v);
    Dynamic::boolean(!b)
}

fn both_true(ctx: &mut Machine, depth: usize, l: &Dynamic, r: &Dynamic) -> (b: bool)
    ensures
        (b, final(ctx).model()) == both(
            depth as nat,
            old(ctx).model(),
            dyn_model(*l),
            dyn_model(*r),
        ),
        final(ctx).fuel <= old(ctx).fuel,
        frames_kept(old(ctx).model(), final(ctx).model()),
    decreases depth, 50nat, 0nat,
{
    if bool_of(ctx, depth, l) {
        bool_of(ctx, depth, r)
    } else {
        false
    }
}

/// Evaluates the operator that [`op_and`] describes.
pub fn do_and(ctx: &mut Machine, depth: usize, left: &Node, right: &Node) -> (r: Dynamic)
    ensures
        (dyn_model(r), final(ctx).model()) == op_and(
            depth as nat,
            old(ctx).model(),
            node_model(*left),
            node_model(*right),
        ),
        final(ctx).fuel <= old(ctx).fuel,
        frames_kept(old(ctx).model(), final(ctx).model()),
    decreases depth, 60nat, 0nat,
{
    let l = parse_node(ctx, depth, left);
    let r = parse_node(ctx, depth, right);
    let b = both_true(ctx, depth, &l, &r);
    if r.is_bool() {
        Dynamic::boolean(b)
    } else if b {
        r
    } else {
        l
    }
}

/// Evaluates the operator that [`op_or`] describes.
pub fn do_or(ctx: &mut Machine, depth: usize, left: &Node, right: &Node) -> (r: Dynamic)
    ensures
        (dyn_model(r), final(ctx).model()) == op_or(
            depth as nat,
            old(ctx).model(),
            node_model(*left),
            node_model(*right),
        ),
        final(ctx).fuel <= old(ctx).fuel,
        frames_kept(old(ctx).model(), final(ctx).model()),
    decreases depth, 60nat, 0nat,
{
    let l = parse_node(ctx, depth, left);
    let r = parse_node(ctx, depth, right);
    if bool_of(ctx, depth, &l) {
        l
    } else if bool_of(ctx, depth, &r) {
        r
    } else {
        Dynamic::boolean(false)
    }
}

/// Evaluates the operator that [`op_is_square`] describes.
pub fn do_is_square(ctx: &mut Machine, depth: usize, operand: &Node) -> (r: Dynamic)
    ensures
        (dyn_model(r), final(ctx).model()) == op_is_square(
            depth as nat,
            old(ctx).model(),
            node_model(*operand),
        ),
        final(ctx).fuel <= old(ctx).fuel,
        frames_kept(old(ctx).model(), final(ctx).model()),
    decreases depth, 60nat, 0nat,
{
    let v = parse_node(ctx, depth, operand);
    let n = num_of(ctx, depth, &v);
    let root = unary_number(ctx, UnaryOp::Sqrt, &n);
    let a = ctx.ask(Request::IsInteger(root));
    match a {
        Answer::Flag(b) => Dynamic::boolean(b),
        _ => {
            ctx.fail(ErrorKind::BadAnswer, String::new());
            Dynamic::boolean(false)
        },
    }
}

/// A text `n` times in a row.
pub fn repeat_text(t: &Vec<char>, n: usize) -> (r: Vec<char>)
    ensures
        r@ == repeat(t@, n as nat),
{
    let mut out: Vec<char> = Vec::new();
    let mut i: usize = 0;
    assert(out@ =~= repeat(t@, 0));
    while i < n
        invariant
            i <= n,
            out@ == repeat(t@, i as nat),
        decreases n - i,
    {
        let ghost before = out@;
        let mut k: usize = 0;
        while k < t.len()
            invariant
                k <= t.len(),
                out@ == before + t@.take(k as int),
            decreases t.len() - k,
        {
            out.push(t[k]);
            k += 1;
            assert(out@ =~= before + t@.take(k as int));
        }
        assert(t@.take(t.len() as int) =~= t@);
        i += 1;
    }
    out
}

/// Evaluates the operator that [`op_pow`] describes.
pub fn do_pow(ctx: &mut Machine, depth: usize, left: &Node, right: &Node) -> (r: Dynamic)
    ensures
        (dyn_model(r), final(ctx).model()) == op_pow(
            depth as nat,
            old(ctx).model(),
            node_model(*left),
            node_model(*right),
        ),
        final(ctx).fuel <= old(ctx).fuel,
        frames_kept(old(ctx).model(), final(ctx).model()),
    decreases depth, 60nat, 0nat,
{
    let l = parse_node(ctx, depth, left);
    match &l.val {
        Val::String(t) => {
            let c = to_u32(ctx, depth, right);
            Dynamic::text(string_of(&repeat_text(&chars_of(t.as_str()), c as usize)))
        },
        _ => {
            let n = num_of(ctx, depth, &l);
            let c = to_u32(ctx, depth, right);
            let mut acc = n.clone();
            let mut i: u32 = 1;
            let ghost start = ctx.model();
            while i < c
                invariant
                    1 <= i,
                    pow_from(start, n.text@, n.text@, 1, c as nat) == pow_from(
                        ctx.model(),
                        acc.text@,
                        n.text@,
                        i as nat,
                        c as nat,
                    ),
                    ctx.fuel <= old(ctx).fuel,
                    frames_kept(old(ctx).model(), ctx.model()),
                decreases c - i,
            {
                acc = binary_number(ctx, BinaryOp::Mul, &acc, &n);
                i += 1;
            }
            Dynamic::number(acc)
        },
    }
}

fn text_is_number(ctx: &mut Machine, t: &String, n: &Num) -> (r: bool)
    ensures
        (r, final(ctx).model()) == text_equals_number(old(ctx).model(), t@, n.text@),
        final(ctx).fuel == old(ctx).fuel,
        frames_kept(old(ctx).model(), final(ctx).model()),
{
    let a = ctx.ask(Request::Parse(t.clone()));
    match a {
        Answer::Number(x) => {
            let o = compare_numbers(ctx, &x, n);
            o == Order::Equal
        },
        Answer::Invalid => false,
        _ => {
            ctx.fail(ErrorKind::BadAnswer, String::new());
            false
        },
    }
}

fn number_is_truth(ctx: &mut Machine, n: &Num, b: bool) -> (r: bool)
    ensures
        (r, final(ctx).model()) == number_equals_truth(old(ctx).model(), n.text@, b),
        final(ctx).fuel == old(ctx).fuel,
        frames_kept(old(ctx).model(), final(ctx).model()),
{
    let o = compare_numbers(ctx, n, &crate::eval::truth(b));
    o == Order::Equal
}

/// Whether two values are equal.
pub fn equal_values(ctx: &mut Machine, a: &Dynamic, b: &Dynamic) -> (r: bool)
    ensures
        (r, final(ctx).model()) == values_equal(old(ctx).model(), dyn_model(*a), dyn_model(*b)),
        final(ctx).fuel == old(ctx).fuel,
        frames_kept(old(ctx).model(), final(ctx).model()),
{
    match &a.val {
        Val::String(x) => match &b.val {
            Val::String(y) => *x == *y,
            Val::Number(n) => text_is_number(ctx, x, n),
            Val::Boolean(t) => *x == crate::eval::truth(*t).text,
            _ => false,
        },
        Val::Number(n) => match &b.val {
            Val::String(y) => text_is_number(ctx, y, n),
            Val::Number(m) => {
                let o = compare_numbers(ctx, n, m);
                o == Order::Equal
            },
            Val::Boolean(t) => number_is_truth(ctx, n, *t),
            _ => false,
        },
        Val::Boolean(t) => match &b.val {
            Val::String(y) => *y == crate::eval::truth(*t).text,
            Val::Number(n) => number_is_truth(ctx, n, *t),
            Val::Boolean(u) => *t == *u,
            _ => false,
        },
        Val::Array(_) => {
            ctx.fail(ErrorKind::Incomparable, String::new());
            false
        },
        Val::Empty => match &b.val {
            Val::Empty => true,
            _ => false,
        },
    }
}

/// Evaluates the operator that [`op_equal`] describes.
pub fn do_equal(ctx: &mut Machine, depth: usize, left: &Node, right: &Node, negate: bool) -> (r:
    Dynamic)
    ensures
        (dyn_model(r), final(ctx).model()) == op_equal(
            depth as nat,
            old(ctx).model(),
            node_model(*left),
            node_model(*right),
            negate,
        ),
        final(ctx).fuel <= old(ctx).fuel,
        frames_kept(old(ctx).model(), final(ctx).model()),
    decreases depth, 60nat, 0nat,
{
    let l = parse_node(ctx, depth, left);
    let r = parse_node(ctx, depth, right);
    let e = equal_values(ctx, &l, &r);
    Dynamic::boolean(e != negate)
}

} // verus!
