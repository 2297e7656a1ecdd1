//! The evaluator: a recursive walk over the syntax tree.
//!
//! Every definition here takes the state of the machine and hands back a
//! value and the state after it. Once the machine has stopped, whatever
//! follows leaves the state as it is and its values mean nothing.
//!
//! Every evaluation ends. The nesting of evaluations is bounded by a depth
//! that each nested evaluation lowers by one. A walk through a sequence pays
//! a step for every entry it takes, and a loop pays one for every round; so
//! wherever a definition goes on after an entry or a round only if fewer
//! steps are left than before, it always goes on.

use crate::dict::{decompress, decompress_spec};
use crate::env::{env_get, env_set};
use crate::machine::{
    Answer, AnswerModel, ask, BinaryOp, bind, cur_env, emit, ErrorKind, fail, frames_kept, halt,
    Machine, MachineModel, Order, pop_env, push_env, Request, RequestModel, spend, Stop, StopModel,
    UnaryOp,
};
use crate::control::{
    do_any, do_bind, do_call, do_conditional, do_count, do_define, do_do_while, do_filter, do_map,
    do_repeat, op_any, op_bind, op_call, op_conditional, op_count, op_define, op_do_while,
    op_filter, op_map, op_repeat,
};
use crate::fold::{do_adjacent, do_fold, op_adjacent, op_fold};
use crate::listops::{
    do_dedup, do_flatten, do_group, do_join, do_pick, do_rangify, do_transpose, op_dedup,
    op_flatten, op_group, op_join, op_pick, op_rangify, op_transpose,
};
use crate::numeric::{
    do_base, do_bifurcate, do_factors, do_primes, do_split, op_base, op_bifurcate, op_factors,
    op_primes, op_split,
};
use crate::ops::{lookup, op_info, OpCode};
use crate::order::{do_sort, op_sort};
use crate::scalar::{
    do_and, do_arith, do_compare, do_equal, do_is_square, do_not, do_or, do_pow, do_scale, do_step,
    do_unary, op_and, op_arith, op_compare, op_equal, op_is_square, op_not, op_or, op_pow,
    op_scale, op_step, op_unary,
};
use crate::seqops::{
    do_behead, do_concat, do_drop_last, do_halves, do_head, do_index_of, do_length, do_nth,
    do_pair, do_pieces, do_range, do_range_down, do_range_from_one, do_reverse, do_split_at,
    do_tail, do_zip, op_behead, op_concat, op_drop_last, op_halves, op_head, op_index_of,
    op_length, op_nth, op_pair, op_pieces, op_range, op_range_down, op_range_from_one, op_reverse,
    op_split_at, op_tail, op_zip,
};
use crate::text::{append_chars, chars_of, has_char, string_of, trimmed};
use crate::tokens::{lemma_node_model, name_model, node_model, nodes_model, Node, NodeModel, Num};
use crate::types::{
    Binding, binding_model, BindingModel, clone_dyns, dyn_model, Dynamic, dyns_model, Environment,
    EnvModel, lemma_seq_model, opt_model, push_value, seq_model, Sequence, SequenceModel, Val,
    ValModel,
};
use crate::values::{
    array_of, literals, literals_of, replace_spec, swap_char, tidy, tidy_number, traverse_replace,
    truth_numeral,
};
use vstd::prelude::*;

verus! {

/// How a number is printed: its digits are asked of the backend and tidied.
pub open spec fn number_text(s: MachineModel, n: Seq<char>) -> (Seq<char>, MachineModel) {
    let (a, s1) = ask(s, RequestModel::Format(n, s.output_precision));
    match a {
        AnswerModel::Text(t) => (tidy_number(t), s1),
        _ => (Seq::empty(), fail(s1, ErrorKind::BadAnswer, Seq::empty())),
    }
}

/// The number that a text denotes, or zero if it denotes none.
pub open spec fn parse_or_zero(s: MachineModel, t: Seq<char>) -> (Seq<char>, MachineModel) {
    let (a, s1) = ask(s, RequestModel::Parse(t));
    match a {
        AnswerModel::Number(n) => (n, s1),
        AnswerModel::Invalid => (seq!['0'], s1),
        _ => (seq!['0'], fail(s1, ErrorKind::BadAnswer, Seq::empty())),
    }
}

/// How the first number compares to the second.
pub open spec fn compare(s: MachineModel, a: Seq<char>, b: Seq<char>) -> (Order, MachineModel) {
    let (r, s1) = ask(s, RequestModel::Compare(a, b));
    match r {
        AnswerModel::Order(o) => (o, s1),
        _ => (Order::Unordered, fail(s1, ErrorKind::BadAnswer, Seq::empty())),
    }
}

/// The text of a value that is no sequence, as it is printed.
pub open spec fn scalar_text(s: MachineModel, v: ValModel) -> (Seq<char>, MachineModel) {
    match v {
        ValModel::String(x) => (x, s),
        ValModel::Number(n) => number_text(s, n),
        ValModel::Boolean(b) => (truth_numeral(b), s),
        _ => (Seq::empty(), s),
    }
}

/// The pieces of a text between the separators, from index `i` on; `cur` is
/// the piece under way and `acc` holds the finished ones.
pub open spec fn split_from(t: Seq<char>, sep: char, i: int, cur: Seq<char>, acc: Seq<ValModel>)
    -> Seq<ValModel>
    decreases t.len() - i,
{
    if i < 0 || i >= t.len() {
        acc.push(ValModel::String(cur))
    } else if t[i] == sep {
        split_from(t, sep, i + 1, Seq::empty(), acc.push(ValModel::String(cur)))
    } else {
        split_from(t, sep, i + 1, cur.push(t[i]), acc)
    }
}

/// The pieces of a text between the separator characters, as strings.
pub open spec fn split_on(t: Seq<char>, sep: char) -> Seq<ValModel> {
    split_from(t, sep, 0, Seq::empty(), Seq::empty())
}

/// The characters of a text, each as a string of its own.
pub open spec fn letters(t: Seq<char>) -> Seq<ValModel> {
    Seq::new(t.len(), |i: int| ValModel::String(seq![t[i]]))
}

/// The sequence that a text stands for: its words if it holds a space, else
/// its characters.
pub open spec fn text_array(t: Seq<char>) -> SequenceModel {
    let items = if t.contains(' ') {
        split_on(t, ' ')
    } else {
        letters(t)
    };
    SequenceModel {
        cstr: items,
        length: Some(items.len() as usize),
        block: NodeModel::String(Seq::empty()),
        back: None,
        env: None,
        index: 0,
    }
}

/// The sequence with the environment of the innermost frame as its own.
pub open spec fn with_env(s: MachineModel, q: SequenceModel) -> SequenceModel {
    SequenceModel { env: Some(cur_env(s)), ..q }
}

/// The text `_`, the name of the implicit argument.
pub open spec fn underscore() -> Seq<char> {
    "_"@
}

/// The value of a node and the state after its evaluation.
pub open spec fn eval_node(d: nat, s: MachineModel, node: NodeModel) -> (ValModel, MachineModel)
    decreases d, 0nat, 0nat,
{
    if s.stopped is Some {
        (ValModel::Empty, s)
    } else if d == 0 {
        (ValModel::Empty, halt(s, StopModel::Exhausted))
    } else {
        let d1 = (d - 1) as nat;
        match node {
            NodeModel::Op(symbol, left, right) => eval_op(d1, s, symbol, left, right),
            NodeModel::String(v) => (ValModel::String(v), s),
            NodeModel::CmpString(v, c) => match decompress_spec(s.dictionary, v, c == '\'') {
                Some(t) => (ValModel::String(t), s),
                None => (ValModel::Empty, fail(s, ErrorKind::MissingWord, v)),
            },
            NodeModel::Number(v) => {
                let (a, s1) = ask(s, RequestModel::Parse(v));
                match a {
                    AnswerModel::Number(n) => (ValModel::Number(n), s1),
                    AnswerModel::Invalid => (
                        ValModel::Empty,
                        fail(s1, ErrorKind::MalformedNumber, v),
                    ),
                    _ => (ValModel::Empty, fail(s1, ErrorKind::BadAnswer, Seq::empty())),
                }
            },
            NodeModel::Variable(v) => {
                let (arg, s1) = get_var(d1, s, underscore());
                call_name(d1, s1, v, arg)
            },
            NodeModel::Group(body) => eval_body(
                d1,
                s,
                body,
                0,
                ValModel::String(Seq::empty()),
            ),
            NodeModel::Block(body, name) => eval_block(d1, s, body, name),
            NodeModel::Sequence(entries, block, length) => {
                let (vals, s1) = eval_all(d1, s, entries, 0, Seq::empty());
                let (n, s2) = match length {
                    Some(l) => {
                        let (c, s2) = count_value(d1, s1, *l);
                        (Some(c as usize), s2)
                    },
                    None => (None, s1),
                };
                (
                    ValModel::Array(
                        Box::new(
                            SequenceModel {
                                cstr: vals,
                                length: n,
                                block: *block,
                                back: None,
                                env: Some(cur_env(s2)),
                                index: 0,
                            },
                        ),
                    ),
                    s2,
                )
            },
        }
    }
}

/// The entry that a sequence computes next: the block with the entries so
/// far put in for its `_`s, evaluated in the environment of the sequence,
/// where `p` stands for the entries so far.
pub open spec fn generate(d: nat, s: MachineModel, q: SequenceModel) -> (
    Option<ValModel>,
    SequenceModel,
    MachineModel,
)
    decreases d, 5nat, 0nat,
{
    match literals_of(q.cstr) {
        None => (None, q, fail(s, ErrorKind::NoLiteral, Seq::empty())),
        Some(nodes) => match replace_spec(nodes, q.block) {
            None => (None, q, fail(s, ErrorKind::TooFewEntries, Seq::empty())),
            Some((block, _)) => match q.env {
                None => (None, q, fail(s, ErrorKind::NoEnvironment, Seq::empty())),
                Some(env) => {
                    let env1 = env_set(env, trimmed("p"@), BindingModel::Value(array_of(q.cstr)));
                    let (v, s1) = eval_node(d, push_env(s, env1), block);
                    let (env2, s2) = pop_env(s1);
                    if s2.stopped is Some {
                        (None, q, s2)
                    } else {
                        (
                            Some(v),
                            SequenceModel {
                                cstr: q.cstr.push(v),
                                index: (q.index + 1) as usize,
                                env: Some(env2),
                                ..q
                            },
                            s2,
                        )
                    }
                },
            },
        },
    }
}

/// The next entry of a walk through a sequence from the front, the sequence
/// after it, and the state. The walk ends at the length of the sequence. An
/// entry costs a step; it is taken from the computed entries if the walk is
/// still among them, and computed otherwise.
pub open spec fn seq_next(d: nat, s: MachineModel, q: SequenceModel) -> (
    Option<ValModel>,
    SequenceModel,
    MachineModel,
)
    decreases d, 10nat, 0nat,
{
    if s.stopped is Some || q.length == Some(q.index) {
        (None, q, s)
    } else if q.index == usize::MAX {
        (None, q, fail(s, ErrorKind::TooLong, Seq::empty()))
    } else {
        let s1 = spend(s);
        if s1.stopped is Some {
            (None, q, s1)
        } else if q.index < q.cstr.len() {
            (Some(q.cstr[q.index as int]), SequenceModel { index: (q.index + 1) as usize, ..q }, s1)
        } else {
            generate(d, s1, q)
        }
    }
}

/// The entry that a walk through a copy of the sequence yields first.
pub open spec fn first_of(d: nat, s: MachineModel, q: SequenceModel) -> (
    Option<ValModel>,
    MachineModel,
)
    decreases d, 12nat, 0nat,
{
    let (x, _, s1) = seq_next(d, s, q);
    (x, s1)
}

/// A value as a text: a string as it is, a number as it is printed, a
/// boolean as `true` or `false`, a sequence as the text of its first entry,
/// and anything else as the empty text.
pub open spec fn literal_string(d: nat, s: MachineModel, v: ValModel) -> (Seq<char>, MachineModel)
    decreases d, 20nat, s.fuel,
{
    match v {
        ValModel::String(x) => (x, s),
        ValModel::Number(n) => number_text(s, n),
        ValModel::Boolean(b) => (
            if b {
                "true"@
            } else {
                "false"@
            },
            s,
        ),
        ValModel::Array(q) => {
            let (x, s1) = first_of(d, s, *q);
            match x {
                Some(e) => if s1.fuel < s.fuel {
                    literal_string(d, s1, e)
                } else {
                    (Seq::empty(), s1)
                },
                None => (Seq::empty(), s1),
            }
        },
        ValModel::Empty => (Seq::empty(), s),
    }
}

/// A value as a number: a number as it is, a text as the number it denotes
/// or zero, a boolean as 1 or 0, a sequence as the number that the text of
/// its first entry denotes, and the empty value as zero.
pub open spec fn literal_num(d: nat, s: MachineModel, v: ValModel) -> (Seq<char>, MachineModel)
    decreases d, 21nat, 0nat,
{
    match v {
        ValModel::String(x) => parse_or_zero(s, x),
        ValModel::Number(n) => (n, s),
        ValModel::Boolean(b) => (truth_numeral(b), s),
        ValModel::Array(q) => {
            let (x, s1) = first_of(d, s, *q);
            let (t, s2) = match x {
                Some(e) => literal_string(d, s1, e),
                None => (Seq::empty(), s1),
            };
            parse_or_zero(s2, t)
        },
        ValModel::Empty => (seq!['0'], s),
    }
}

/// A value as a truth value: a boolean as it is, a text if it is not empty,
/// a number if it is not zero, a sequence as its first entry, and the empty
/// value as false.
pub open spec fn literal_bool(d: nat, s: MachineModel, v: ValModel) -> (bool, MachineModel)
    decreases d, 22nat, s.fuel,
{
    match v {
        ValModel::String(x) => (x.len() > 0, s),
        ValModel::Number(n) => {
            let (o, s1) = compare(s, n, seq!['0']);
            (o != Order::Equal, s1)
        },
        ValModel::Boolean(b) => (b, s),
        ValModel::Array(q) => {
            let (x, s1) = first_of(d, s, *q);
            match x {
                Some(e) => if s1.fuel < s.fuel {
                    literal_bool(d, s1, e)
                } else {
                    (false, s1)
                },
                None => (false, s1),
            }
        },
        ValModel::Empty => (false, s),
    }
}

/// A value as a sequence: a sequence as it is, a text as its words or its
/// characters, a number or a boolean as the characters it is printed with,
/// and the empty value as the sequence without entries.
pub open spec fn literal_array(s: MachineModel, v: ValModel) -> (SequenceModel, MachineModel) {
    match v {
        ValModel::Array(q) => (*q, s),
        ValModel::Empty => (text_array(Seq::empty()), s),
        _ => {
            let (t, s1) = scalar_text(s, v);
            (text_array(t), s1)
        },
    }
}

/// The text that a walk through a sequence prints: entry by entry, each on
/// a line of its own. An entry that is a sequence itself is printed with
/// spaces in place of its line ends. With `direct`, the lines go to the
/// output as they come and the text stays empty.
pub open spec fn display_seq(
    d: nat,
    s: MachineModel,
    q: SequenceModel,
    acc: Seq<char>,
    direct: bool,
) -> (Seq<char>, MachineModel)
    decreases d, 30nat, s.fuel,
{
    let (x, q1, s1) = seq_next(d, s, q);
    match x {
        None => (acc, s1),
        Some(e) => if !(s1.fuel < s.fuel) {
            (acc, s1)
        } else {
            let (t, s2) = match e {
                ValModel::Array(inner) => {
                    let (t0, s2) = display_seq(d, s1, *inner, Seq::empty(), inner.length is None);
                    (swap_char(t0, '\n', ' '), s2)
                },
                _ => scalar_text(s1, e),
            };
            let line = t.push('\n');
            if !(s2.fuel <= s1.fuel) {
                (acc, s2)
            } else if direct {
                display_seq(d, emit(s2, line), q1, acc, direct)
            } else {
                display_seq(d, s2, q1, acc + line, direct)
            }
        },
    }
}

/// The text that a value is printed as.
pub open spec fn display(d: nat, s: MachineModel, v: ValModel) -> (Seq<char>, MachineModel)
    decreases d, 31nat, 0nat,
{
    match v {
        ValModel::Array(q) => display_seq(d, s, *q, Seq::empty(), q.length is None),
        _ => scalar_text(s, v),
    }
}

/// The entries that a walk through a sequence yields, behind `acc`.
pub open spec fn collect(d: nat, s: MachineModel, q: SequenceModel, acc: Seq<ValModel>) -> (
    Seq<ValModel>,
    MachineModel,
)
    decreases d, 32nat, s.fuel,
{
    let (x, q1, s1) = seq_next(d, s, q);
    match x {
        None => (acc, s1),
        Some(e) => if s1.fuel < s.fuel {
            collect(d, s1, q1, acc.push(e))
        } else {
            (acc, s1)
        },
    }
}

/// What a binding yields for an argument. A value yields itself. A function
/// is evaluated in a new frame that holds `base` with `_` bound to the
/// argument. The output functions print the argument and yield it.
pub open spec fn call_binding(
    d: nat,
    s: MachineModel,
    b: BindingModel,
    arg: ValModel,
    base: EnvModel,
) -> (ValModel, MachineModel)
    decreases d, 40nat, 0nat,
{
    match b {
        BindingModel::Value(v) => (v, s),
        BindingModel::Function(node) => {
            let frame = env_set(base, trimmed(underscore()), BindingModel::Value(arg));
            let (v, s1) = eval_node(d, push_env(s, frame), node);
            let (_, s2) = pop_env(s1);
            (v, s2)
        },
        BindingModel::Print => {
            let (t, s1) = display(d, s, arg);
            (arg, emit(s1, t))
        },
        BindingModel::PrintLine => {
            let (t, s1) = display(d, s, arg);
            (arg, emit(s1, t.push('\n')))
        },
    }
}

/// What the name yields for an argument in the innermost frame.
pub open spec fn call_name(d: nat, s: MachineModel, name: Seq<char>, arg: ValModel) -> (
    ValModel,
    MachineModel,
)
    decreases d, 41nat, 0nat,
{
    match env_get(cur_env(s), name) {
        Some(b) => call_binding(d, s, b, arg, cur_env(s)),
        None => (ValModel::Empty, fail(s, ErrorKind::UnrecognizedName, name)),
    }
}

/// The value of a name: what it yields for the argument `false` in an empty
/// environment.
pub open spec fn get_var(d: nat, s: MachineModel, name: Seq<char>) -> (ValModel, MachineModel)
    decreases d, 41nat, 0nat,
{
    match env_get(cur_env(s), name) {
        Some(b) => call_binding(d, s, b, ValModel::Boolean(false), Seq::empty()),
        None => (ValModel::Empty, fail(s, ErrorKind::UnrecognizedName, name)),
    }
}

/// The value of a node as a count: rounded down and clamped to 32 bits.
pub open spec fn count_value(d: nat, s: MachineModel, node: NodeModel) -> (u32, MachineModel)
    decreases d, 43nat, 0nat,
{
    let (v, s1) = eval_node(d, s, node);
    let (n, s2) = literal_num(d, s1, v);
    count_of(s2, n)
}

/// A number as a count: rounded down and clamped to 32 bits.
pub open spec fn count_of(s: MachineModel, n: Seq<char>) -> (u32, MachineModel) {
    let (a, s1) = ask(s, RequestModel::ToU32(n));
    match a {
        AnswerModel::Count(c) => (c, s1),
        AnswerModel::Invalid => (0, fail(s1, ErrorKind::NotANumber, n)),
        _ => (0, fail(s1, ErrorKind::BadAnswer, Seq::empty())),
    }
}

/// The value of the statements from index `i` on: each is evaluated in
/// turn, and the value of the last one is the value of all; `last` is the
/// value so far.
pub open spec fn eval_body(d: nat, s: MachineModel, body: Seq<NodeModel>, i: int, last: ValModel)
    -> (ValModel, MachineModel)
    decreases d, 44nat, body.len() - i,
{
    if i < 0 || i >= body.len() {
        (last, s)
    } else {
        let (v, s1) = eval_node(d, s, body[i]);
        eval_body(d, s1, body, i + 1, v)
    }
}

/// The value of a block: its statements evaluated in a new frame, a copy of
/// the innermost one in which the block's parameter stands for the value of
/// `_`.
pub open spec fn eval_block(
    d: nat,
    s: MachineModel,
    body: Seq<NodeModel>,
    name: Option<Seq<char>>,
) -> (ValModel, MachineModel)
    decreases d, 45nat, 0nat,
{
    let s1 = push_env(s, cur_env(s));
    let (v, s2) = get_var(d, s1, underscore());
    let s3 = bind(s2, trimmed(param_name(name)), BindingModel::Value(v));
    let (r, s4) = eval_body(d, s3, body, 0, ValModel::String(Seq::empty()));
    let (_, s5) = pop_env(s4);
    (r, s5)
}

/// The name of a block's parameter: its own, or `_`.
pub open spec fn param_name(name: Option<Seq<char>>) -> Seq<char> {
    match name {
        Some(n) => n,
        None => underscore(),
    }
}

/// The value of a node whose parameter is bound already: the statements of
/// a block are evaluated in the innermost frame as it is.
pub open spec fn eval_uniq(d: nat, s: MachineModel, node: NodeModel) -> (ValModel, MachineModel)
    decreases d, 45nat, 0nat,
{
    match node {
        NodeModel::Block(body, _) => eval_body(d, s, body, 0, ValModel::String(Seq::empty())),
        _ => eval_node(d, s, node),
    }
}

/// The values of the nodes from index `i` on, behind `acc`.
pub open spec fn eval_all(
    d: nat,
    s: MachineModel,
    nodes: Seq<NodeModel>,
    i: int,
    acc: Seq<ValModel>,
) -> (Seq<ValModel>, MachineModel)
    decreases d, 46nat, nodes.len() - i,
{
    if i < 0 || i >= nodes.len() {
        (acc, s)
    } else {
        let (v, s1) = eval_node(d, s, nodes[i]);
        eval_all(d, s1, nodes, i + 1, acc.push(v))
    }
}

/// The value of an operator applied to its operands. An operator node needs
/// as many operands on each side as the table gives its symbol.
pub open spec fn eval_op(
    d: nat,
    s: MachineModel,
    symbol: Seq<char>,
    left: Seq<NodeModel>,
    right: Seq<NodeModel>,
) -> (ValModel, MachineModel)
    decreases d, 90nat, 0nat,
{
    match op_info(symbol) {
        None => (ValModel::Empty, fail(s, ErrorKind::UnknownOperator, symbol)),
        Some(info) => if left.len() < info.left || right.len() < info.right {
            (ValModel::Empty, fail(s, ErrorKind::MissingOperand, symbol))
        } else {
            match info.code {
                OpCode::Add => op_arith(d, s, left[0], right[0], BinaryOp::Add),
                OpCode::Sub => op_arith(d, s, left[0], right[0], BinaryOp::Sub),
                OpCode::Mul => op_arith(d, s, left[0], right[0], BinaryOp::Mul),
                OpCode::Div => op_arith(d, s, left[0], right[0], BinaryOp::Div),
                OpCode::Rem => op_arith(d, s, left[0], right[0], BinaryOp::Rem),
                OpCode::Pow => op_pow(d, s, left[0], right[0]),
                OpCode::Abs => op_unary(d, s, left[0], UnaryOp::Abs),
                OpCode::Floor => op_unary(d, s, right[0], UnaryOp::Floor),
                OpCode::Ceil => op_unary(d, s, right[0], UnaryOp::Ceil),
                OpCode::Square => op_unary(d, s, right[0], UnaryOp::Square),
                OpCode::Sqrt => op_unary(d, s, right[0], UnaryOp::Sqrt),
                OpCode::Double => op_scale(d, s, right[0], BinaryOp::Mul, seq!['2']),
                OpCode::Halve => op_scale(d, s, right[0], BinaryOp::Div, seq!['2']),
                OpCode::Increment => op_step(d, s, right[0], BinaryOp::Add),
                OpCode::Decrement => op_step(d, s, right[0], BinaryOp::Sub),
                OpCode::IsSquare => op_is_square(d, s, left[0]),
                OpCode::Not => op_not(d, s, right[0]),
                OpCode::And => op_and(d, s, left[0], right[0]),
                OpCode::Or => op_or(d, s, left[0], right[0]),
                OpCode::Equal => op_equal(d, s, left[0], right[0], false),
                OpCode::NotEqual => op_equal(d, s, left[0], right[0], true),
                OpCode::Less => op_compare(d, s, left[0], right[0], info.code),
                OpCode::LessEqual => op_compare(d, s, left[0], right[0], info.code),
                OpCode::Greater => op_compare(d, s, left[0], right[0], info.code),
                OpCode::GreaterEqual => op_compare(d, s, left[0], right[0], info.code),
                OpCode::RangeFromOne => op_range_from_one(d, s, right[0]),
                OpCode::RangeDown => op_range_down(d, s, left[0]),
                OpCode::RangeInclusive => op_range(d, s, left[0], right[0], true),
                OpCode::RangeExclusive => op_range(d, s, left[0], right[0], false),
                OpCode::Length => op_length(d, s, left[0]),
                OpCode::Pair => op_pair(d, s, left[0], right[0]),
                OpCode::Lines => op_pieces(d, s, left[0], '\n'),
                OpCode::Words => op_pieces(d, s, left[0], ' '),
                OpCode::Head => op_head(d, s, left[0]),
                OpCode::Tail => op_tail(d, s, left[0]),
                OpCode::Behead => op_behead(d, s, left[0]),
                OpCode::DropLast => op_drop_last(d, s, left[0]),
                OpCode::Halves => op_halves(d, s, right[0]),
                OpCode::SplitAt => op_split_at(d, s, left[0], right[0]),
                OpCode::Reverse => op_reverse(d, s, left[0]),
                OpCode::Nth => op_nth(d, s, left[0], right[0]),
                OpCode::IndexOf => op_index_of(d, s, left[0], right[0]),
                OpCode::Concat => op_concat(d, s, left[0], right[0]),
                OpCode::Zip => op_zip(d, s, left[0], right[0]),
                OpCode::Call => op_call(d, s, left[0], right[0]),
                OpCode::Define => op_define(s, left[0], right[0]),
                OpCode::Bind => op_bind(d, s, left[0], right[0]),
                OpCode::MapEach => op_map(d, s, left[0], right[0]),
                OpCode::Filter => op_filter(d, s, right[0], right[1]),
                OpCode::Any => op_any(d, s, right[0], right[1]),
                OpCode::Count => op_count(d, s, right[0], right[1]),
                OpCode::Repeat => op_repeat(d, s, right[0], right[1], right[2]),
                OpCode::DoWhile => op_do_while(d, s, left[0], right[0]),
                OpCode::Conditional => op_conditional(d, s, left[0], right[0], right[1]),
                OpCode::Fold => op_fold(d, s, left[0], right[0]),
                OpCode::Adjacent => op_adjacent(d, s, left[0], right[0]),
                OpCode::Group => op_group(d, s, left[0]),
                OpCode::Dedup => op_dedup(d, s, right[0], false),
                OpCode::DedupSieve => op_dedup(d, s, right[0], true),
                OpCode::Join => op_join(d, s, left[0], right[0]),
                OpCode::Flatten => op_flatten(d, s, left[0]),
                OpCode::Transpose => op_transpose(d, s, left[0]),
                OpCode::Rangify => op_rangify(d, s, left[0], false),
                OpCode::RangifyInclusive => op_rangify(d, s, left[0], true),
                OpCode::RandomPick => op_pick(d, s, right[0]),
                OpCode::SortAscending => op_sort(d, s, right[0], false),
                OpCode::SortDescending => op_sort(d, s, right[0], true),
                OpCode::Primes => op_primes(d, s, right[0]),
                OpCode::Factors => op_factors(d, s, right[0]),
                OpCode::Bifurcate => op_bifurcate(d, s, right[0]),
                OpCode::Split => op_split(d, s, left[0], right[0]),
                OpCode::Base => op_base(d, s, left[0], right[0]),
                OpCode::NotAll => (ValModel::Empty, fail(s, ErrorKind::UnknownOperator, symbol)),
                OpCode::MapFold => (ValModel::Empty, fail(s, ErrorKind::UnknownOperator, symbol)),
            }
        },
    }
}

/// The numeral 0.
pub fn zero() -> (n: Num)
    ensures
        n.text@ == seq!['0'],
{
    let mut v: Vec<char> = Vec::new();
    v.push('0');
    assert(v@ =~= seq!['0']);
    Num { text: string_of(&v) }
}

/// The numeral 1.
pub fn one() -> (n: Num)
    ensures
        n.text@ == seq!['1'],
{
    let mut v: Vec<char> = Vec::new();
    v.push('1');
    assert(v@ =~= seq!['1']);
    Num { text: string_of(&v) }
}

/// The numeral of a truth value.
pub fn truth(b: bool) -> (n: Num)
    ensures
        n.text@ == truth_numeral(b),
{
    if b {
        one()
    } else {
        zero()
    }
}

/// Asks the backend for the digits of a number and tidies them.
pub fn format_number(ctx: &mut Machine, n: &Num) -> (r: String)
    ensures
        (r@, final(ctx).model()) == number_text(old(ctx).model(), n.text@),
        final(ctx).fuel == old(ctx).fuel,
        frames_kept(old(ctx).model(), final(ctx).model()),
{
    let digits = ctx.output_precision;
    let a = ctx.ask(Request::Format(n.clone(), digits));
    match a {
        Answer::Text(t) => string_of(&tidy(&chars_of(t.as_str()))),
        _ => {
            ctx.fail(ErrorKind::BadAnswer, String::new());
            String::new()
        },
    }
}

/// Asks the backend for the number that a text denotes; zero if none.
pub fn number_or_zero(ctx: &mut Machine, t: &String) -> (r: Num)
    ensures
        (r.text@, final(ctx).model()) == parse_or_zero(old(ctx).model(), t@),
        final(ctx).fuel == old(ctx).fuel,
        frames_kept(old(ctx).model(), final(ctx).model()),
{
    let a = ctx.ask(Request::Parse(t.clone()));
    match a {
        Answer::Number(n) => n,
        Answer::Invalid => zero(),
        _ => {
            ctx.fail(ErrorKind::BadAnswer, String::new());
            zero()
        },
    }
}

/// Asks the backend how two numbers compare.
pub fn compare_numbers(ctx: &mut Machine, a: &Num, b: &Num) -> (r: Order)
    ensures
        (r, final(ctx).model()) == compare(old(ctx).model(), a.text@, b.text@),
        final(ctx).fuel == old(ctx).fuel,
        frames_kept(old(ctx).model(), final(ctx).model()),
{
    let r = ctx.ask(Request::Compare(a.clone(), b.clone()));
    match r {
        Answer::Order(o) => o,
        _ => {
            ctx.fail(ErrorKind::BadAnswer, String::new());
            Order::Unordered
        },
    }
}

/// Asks the backend for a number as a count.
pub fn number_count(ctx: &mut Machine, n: &Num) -> (r: u32)
    ensures
        (r, final(ctx).model()) == count_of(old(ctx).model(), n.text@),
        final(ctx).fuel == old(ctx).fuel,
        frames_kept(old(ctx).model(), final(ctx).model()),
{
    let a = ctx.ask(Request::ToU32(n.clone()));
    match a {
        Answer::Count(c) => c,
        Answer::Invalid => {
            ctx.fail(ErrorKind::NotANumber, n.text.clone());
            0
        },
        _ => {
            ctx.fail(ErrorKind::BadAnswer, String::new());
            0
        },
    }
}

/// The text of a value that is no sequence, as it is printed.
pub fn print_scalar(ctx: &mut Machine, v: &Dynamic) -> (r: String)
    ensures
        (r@, final(ctx).model()) == scalar_text(old(ctx).model(), dyn_model(*v)),
        final(ctx).fuel == old(ctx).fuel,
        frames_kept(old(ctx).model(), final(ctx).model()),
{
    match &v.val {
        Val::String(x) => x.clone(),
        Val::Number(n) => format_number(ctx, n),
        Val::Boolean(b) => truth(*b).text,
        _ => String::new(),
    }
}

/// The pieces of a text between the separator characters, as strings.
pub fn split_text(t: &Vec<char>, sep: char) -> (r: Vec<Dynamic>)
    ensures
        dyns_model(r@) == split_on(t@, sep),
{
    let mut acc: Vec<Dynamic> = Vec::new();
    let mut cur: Vec<char> = Vec::new();
    let mut i: usize = 0;
    assert(dyns_model(acc@) =~= Seq::<ValModel>::empty());
    while i < t.len()
        invariant
            i <= t.len(),
            split_on(t@, sep) == split_from(t@, sep, i as int, cur@, dyns_model(acc@)),
        decreases t.len() - i,
    {
        if t[i] == sep {
            push_value(&mut acc, Dynamic::text(string_of(&cur)));
            cur = Vec::new();
        } else {
            cur.push(t[i]);
        }
        i += 1;
    }
    push_value(&mut acc, Dynamic::text(string_of(&cur)));
    acc
}

/// The characters of a text, each as a string of its own.
pub fn text_letters(t: &Vec<char>) -> (r: Vec<Dynamic>)
    ensures
        dyns_model(r@) == letters(t@),
{
    let mut acc: Vec<Dynamic> = Vec::new();
    let mut i: usize = 0;
    while i < t.len()
        invariant
            i <= t.len(),
            dyns_model(acc@) =~= letters(t@.take(i as int)),
        decreases t.len() - i,
    {
        let mut one: Vec<char> = Vec::new();
        one.push(t[i]);
        assert(one@ =~= seq![t@[i as int]]);
        push_value(&mut acc, Dynamic::text(string_of(&one)));
        i += 1;
    }
    assert(t@.take(t.len() as int) =~= t@);
    acc
}

/// The sequence that a text stands for.
pub fn array_of_text(t: &Vec<char>) -> (q: Sequence)
    ensures
        seq_model(q) == text_array(t@),
{
    let items = if has_char(t, ' ') {
        split_text(t, ' ')
    } else {
        text_letters(t)
    };
    let n = items.len();
    Sequence::from_vec_dyn(items, Node::String(String::new()), Some(n))
}

/// The sequence value that holds the given entries and nothing more.
pub fn array_from(items: Vec<Dynamic>) -> (v: Dynamic)
    ensures
        dyn_model(v) == array_of(dyns_model(items@)),
{
    let n = items.len();
    let block = Node::Block(Vec::new(), None);
    proof {
        lemma_node_model(block);
        assert(nodes_model(Seq::<Node>::empty()) =~= Seq::<NodeModel>::empty());
    }
    Dynamic::array(Sequence::from_vec_dyn(items, block, Some(n)))
}

/// The value of a node. The evaluation changes no frame but the innermost
/// one, and a block does not change that one either.
pub fn parse_node(ctx: &mut Machine, depth: usize, node: &Node) -> (r: Dynamic)
    ensures
        (dyn_model(r), final(ctx).model()) == eval_node(
            depth as nat,
            old(ctx).model(),
            node_model(*node),
        ),
        final(ctx).fuel <= old(ctx).fuel,
        frames_kept(old(ctx).model(), final(ctx).model()),
        node_model(*node) is Block ==> final(ctx).model().envs == old(ctx).model().envs,
    decreases depth, 0nat, 0nat,
{
    if ctx.is_stopped() {
        return Dynamic::empty();
    }
    if depth == 0 {
        ctx.halt(Stop::Exhausted);
        return Dynamic::empty();
    }
    let d1 = depth - 1;
    proof {
        lemma_node_model(*node);
    }
    match node {
        Node::Op(symbol, left, right) => parse_op(ctx, d1, symbol.as_str(), left, right),
        Node::String(v) => Dynamic::text(v.clone()),
        Node::CmpString(v, c) => match decompress(v.as_str(), *c == '\'', &ctx.dictionary) {
            Some(t) => Dynamic::text(t),
            None => {
                ctx.fail(ErrorKind::MissingWord, v.clone());
                Dynamic::empty()
            },
        },
        Node::Number(v) => {
            let a = ctx.ask(Request::Parse(v.text.clone()));
            match a {
                Answer::Number(n) => Dynamic::number(n),
                Answer::Invalid => {
                    ctx.fail(ErrorKind::MalformedNumber, v.text.clone());
                    Dynamic::empty()
                },
                _ => {
                    ctx.fail(ErrorKind::BadAnswer, String::new());
                    Dynamic::empty()
                },
            }
        },
        Node::Variable(v) => {
            let arg = value_of(ctx, d1, "_");
            attempt_call(ctx, d1, v.as_str(), &arg)
        },
        Node::Group(body) => parse_body(ctx, d1, body),
        Node::Block(body, name) => parse_block(ctx, d1, body, name),
        Node::Sequence(entries, block, length) => {
            let vals = parse_all(ctx, d1, entries);
            let n = match length {
                Some(l) => Some(to_u32(ctx, d1, l) as usize),
                None => None,
            };
            let mut q = Sequence::from_vec_dyn(vals, (**block).clone(), n);
            q.set_env(ctx.current());
            Dynamic::array(q)
        },
    }
}

/// Computes the next entry of a sequence.
fn generate_next(ctx: &mut Machine, depth: usize, q: &mut Sequence) -> (r: Option<Dynamic>)
    requires
        old(q).index < usize::MAX,
    ensures
        (opt_model(r), seq_model(*final(q)), final(ctx).model()) == generate(
            depth as nat,
            old(ctx).model(),
            seq_model(*old(q)),
        ),
        final(ctx).fuel <= old(ctx).fuel,
        frames_kept(old(ctx).model(), final(ctx).model()),
    decreases depth, 5nat, 0nat,
{
    proof {
        lemma_seq_model(*q);
    }
    let mut nodes = match literals(&q.cstr) {
        Some(n) => n,
        None => {
            ctx.fail(ErrorKind::NoLiteral, String::new());
            return None;
        },
    };
    let block = match traverse_replace(&mut nodes, &q.block) {
        Some(b) => b,
        None => {
            ctx.fail(ErrorKind::TooFewEntries, String::new());
            return None;
        },
    };
    let mut env = match &q.env {
        Some(e) => e.clone(),
        None => {
            ctx.fail(ErrorKind::NoEnvironment, String::new());
            return None;
        },
    };
    env.define_var("p", array_from(clone_dyns(&q.cstr)));
    ctx.push_env(env);
    let v = parse_node(ctx, depth, &block);
    let env2 = ctx.pop_env();
    if ctx.is_stopped() {
        return None;
    }
    push_value(&mut q.cstr, v.clone());
    q.index = q.index + 1;
    q.env = Some(env2);
    proof {
        lemma_seq_model(*q);
    }
    Some(v)
}

/// The next entry of a walk through a sequence from the front.
pub fn seq_step(ctx: &mut Machine, depth: usize, q: &mut Sequence) -> (r: Option<Dynamic>)
    ensures
        (opt_model(r), seq_model(*final(q)), final(ctx).model()) == seq_next(
            depth as nat,
            old(ctx).model(),
            seq_model(*old(q)),
        ),
        final(ctx).fuel <= old(ctx).fuel,
        frames_kept(old(ctx).model(), final(ctx).model()),
        r is Some ==> final(ctx).fuel < old(ctx).fuel,
    decreases depth, 10nat, 0nat,
{
    if ctx.is_stopped() {
        return None;
    }
    match q.length {
        Some(n) => {
            if q.index == n {
                return None;
            }
        },
        None => {},
    }
    if q.index == usize::MAX {
        ctx.fail(ErrorKind::TooLong, String::new());
        return None;
    }
    ctx.spend();
    if ctx.is_stopped() {
        return None;
    }
    proof {
        lemma_seq_model(*q);
    }
    if q.index < q.cstr.len() {
        let v = q.cstr[q.index].clone();
        q.index = q.index + 1;
        proof {
            lemma_seq_model(*q);
        }
        Some(v)
    } else {
        generate_next(ctx, depth, q)
    }
}

/// The entry that a walk through a copy of the sequence yields first.
pub fn first_entry(ctx: &mut Machine, depth: usize, q: &Sequence) -> (r: Option<Dynamic>)
    ensures
        (opt_model(r), final(ctx).model()) == first_of(
            depth as nat,
            old(ctx).model(),
            seq_model(*q),
        ),
        final(ctx).fuel <= old(ctx).fuel,
        frames_kept(old(ctx).model(), final(ctx).model()),
        r is Some ==> final(ctx).fuel < old(ctx).fuel,
    decreases depth, 12nat, 0nat,
{
    let mut c = q.clone();
    seq_step(ctx, depth, &mut c)
}

/// A value as a text.
pub fn text_of(ctx: &mut Machine, depth: usize, v: &Dynamic) -> (r: String)
    ensures
        (r@, final(ctx).model()) == literal_string(
            depth as nat,
            old(ctx).model(),
            dyn_model(*v),
        ),
        final(ctx).fuel <= old(ctx).fuel,
        frames_kept(old(ctx).model(), final(ctx).model()),
    decreases depth, 20nat, old(ctx).fuel,
{
    match &v.val {
        Val::String(x) => x.clone(),
        Val::Number(n) => format_number(ctx, n),
        Val::Boolean(b) => if *b {
            "true".to_owned()
        } else {
            "false".to_owned()
        },
        Val::Array(q) => {
            let x = first_entry(ctx, depth, q);
            match x {
                Some(e) => text_of(ctx, depth, &e),
                None => String::new(),
            }
        },
        Val::Empty => String::new(),
    }
}

/// A value as a number.
pub fn num_of(ctx: &mut Machine, depth: usize, v: &Dynamic) -> (r: Num)
    ensures
        (r.text@, final(ctx).model()) == literal_num(
            depth as nat,
            old(ctx).model(),
            dyn_model(*v),
        ),
        final(ctx).fuel <= old(ctx).fuel,
        frames_kept(old(ctx).model(), final(ctx).model()),
    decreases depth, 21nat, 0nat,
{
    match &v.val {
        Val::String(x) => number_or_zero(ctx, x),
        Val::Number(n) => n.clone(),
        Val::Boolean(b) => truth(*b),
        Val::Array(q) => {
            let x = first_entry(ctx, depth, q);
            let t = match x {
                Some(e) => text_of(ctx, depth, &e),
                None => String::new(),
            };
            number_or_zero(ctx, &t)
        },
        Val::Empty => zero(),
    }
}

/// A value as a truth value.
pub fn bool_of(ctx: &mut Machine, depth: usize, v: &Dynamic) -> (r: bool)
    ensures
        (r, final(ctx).model()) == literal_bool(depth as nat, old(ctx).model(), dyn_model(*v)),
        final(ctx).fuel <= old(ctx).fuel,
        frames_kept(old(ctx).model(), final(ctx).model()),
    decreases depth, 22nat, old(ctx).fuel,
{
    match &v.val {
        Val::String(x) => x.as_str().unicode_len() > 0,
        Val::Number(n) => {
            let o = compare_numbers(ctx, n, &zero());
            o != Order::Equal
        },
        Val::Boolean(b) => *b,
        Val::Array(q) => {
            let x = first_entry(ctx, depth, q);
            match x {
                Some(e) => bool_of(ctx, depth, &e),
                None => false,
            }
        },
        Val::Empty => false,
    }
}

/// A value as a sequence.
pub fn array_of_value(ctx: &mut Machine, v: &Dynamic) -> (r: Sequence)
    ensures
        (seq_model(r), final(ctx).model()) == literal_array(old(ctx).model(), dyn_model(*v)),
        final(ctx).fuel == old(ctx).fuel,
        frames_kept(old(ctx).model(), final(ctx).model()),
{
    match &v.val {
        Val::Array(q) => (**q).clone(),
        Val::Empty => array_of_text(&Vec::new()),
        _ => {
            let t = print_scalar(ctx, v);
            array_of_text(&chars_of(t.as_str()))
        },
    }
}

fn swap_chars(t: &Vec<char>, from: char, to: char) -> (r: Vec<char>)
    ensures
        r@ == swap_char(t@, from, to),
{
    let mut out: Vec<char> = Vec::new();
    let mut i: usize = 0;
    while i < t.len()
        invariant
            i <= t.len(),
            out@ =~= swap_char(t@.take(i as int), from, to),
        decreases t.len() - i,
    {
        let c = t[i];
        out.push(if c == from { to } else { c });
        i += 1;
    }
    assert(t@.take(t.len() as int) =~= t@);
    out
}

/// The text that a walk through a sequence prints.
pub fn print_seq(ctx: &mut Machine, depth: usize, seq: Sequence, direct: bool) -> (r: Vec<char>)
    ensures
        (r@, final(ctx).model()) == display_seq(
            depth as nat,
            old(ctx).model(),
            seq_model(seq),
            Seq::empty(),
            direct,
        ),
        final(ctx).fuel <= old(ctx).fuel,
        frames_kept(old(ctx).model(), final(ctx).model()),
    decreases depth, 30nat, old(ctx).fuel,
{
    let mut q = seq;
    let mut acc: Vec<char> = Vec::new();
    loop
        invariant
            display_seq(depth as nat, old(ctx).model(), seq_model(seq), Seq::empty(), direct)
                == display_seq(depth as nat, ctx.model(), seq_model(q), acc@, direct),
            ctx.fuel <= old(ctx).fuel,
            frames_kept(old(ctx).model(), ctx.model()),
        decreases ctx.fuel,
    {
        let x = seq_step(ctx, depth, &mut q);
        match x {
            None => {
                return acc;
            },
            Some(e) => {
                let t = match &e.val {
                    Val::Array(inner) => {
                        let inner_direct = inner.length.is_none();
                        let t0 = print_seq(ctx, depth, (**inner).clone(), inner_direct);
                        swap_chars(&t0, '\n', ' ')
                    },
                    _ => chars_of(print_scalar(ctx, &e).as_str()),
                };
                let mut line = t;
                line.push('\n');
                if direct {
                    ctx.emit(&line);
                } else {
                    append_chars(&mut acc, &line);
                }
            },
        }
    }
}

/// The text that a value is printed as.
pub fn print_value(ctx: &mut Machine, depth: usize, v: &Dynamic) -> (r: Vec<char>)
    ensures
        (r@, final(ctx).model()) == display(depth as nat, old(ctx).model(), dyn_model(*v)),
        final(ctx).fuel <= old(ctx).fuel,
        frames_kept(old(ctx).model(), final(ctx).model()),
    decreases depth, 31nat, 0nat,
{
    match &v.val {
        Val::Array(q) => print_seq(ctx, depth, (**q).clone(), q.length.is_none()),
        _ => chars_of(print_scalar(ctx, v).as_str()),
    }
}

/// The entries that a walk through a sequence yields.
pub fn collect_seq(ctx: &mut Machine, depth: usize, seq: Sequence) -> (r: Vec<Dynamic>)
    ensures
        (dyns_model(r@), final(ctx).model()) == collect(
            depth as nat,
            old(ctx).model(),
            seq_model(seq),
            Seq::empty(),
        ),
        final(ctx).fuel <= old(ctx).fuel,
        frames_kept(old(ctx).model(), final(ctx).model()),
    decreases depth, 32nat, 0nat,
{
    let mut q = seq;
    let mut acc: Vec<Dynamic> = Vec::new();
    assert(dyns_model(acc@) =~= Seq::<ValModel>::empty());
    loop
        invariant
            collect(depth as nat, old(ctx).model(), seq_model(seq), Seq::empty()) == collect(
                depth as nat,
                ctx.model(),
                seq_model(q),
                dyns_model(acc@),
            ),
            ctx.fuel <= old(ctx).fuel,
            frames_kept(old(ctx).model(), ctx.model()),
        decreases ctx.fuel,
    {
        let x = seq_step(ctx, depth, &mut q);
        match x {
            None => {
                return acc;
            },
            Some(e) => {
                push_value(&mut acc, e);
            },
        }
    }
}

/// What a binding yields for an argument.
pub fn call_value(
    ctx: &mut Machine,
    depth: usize,
    b: &Binding,
    arg: &Dynamic,
    from_current: bool,
) -> (r: Dynamic)
    ensures
        (dyn_model(r), final(ctx).model()) == call_binding(
            depth as nat,
            old(ctx).model(),
            binding_model(*b),
            dyn_model(*arg),
            if from_current {
                cur_env(old(ctx).model())
            } else {
                Seq::empty()
            },
        ),
        final(ctx).fuel <= old(ctx).fuel,
        frames_kept(old(ctx).model(), final(ctx).model()),
    decreases depth, 40nat, 0nat,
{
    match b {
        Binding::Value(v) => v.clone(),
        Binding::Function(node) => {
            let mut frame = if from_current {
                ctx.current()
            } else {
                Environment::init()
            };
            frame.define_var("_", arg.clone());
            ctx.push_env(frame);
            let v = parse_node(ctx, depth, node);
            ctx.pop_env();
            v
        },
        Binding::Print => {
            let t = print_value(ctx, depth, arg);
            ctx.emit(&t);
            arg.clone()
        },
        Binding::PrintLine => {
            let mut t = print_value(ctx, depth, arg);
            t.push('\n');
            ctx.emit(&t);
            arg.clone()
        },
    }
}

/// What the name yields for an argument in the innermost frame.
pub fn attempt_call(ctx: &mut Machine, depth: usize, name: &str, arg: &Dynamic) -> (r: Dynamic)
    ensures
        (dyn_model(r), final(ctx).model()) == call_name(
            depth as nat,
            old(ctx).model(),
            name@,
            dyn_model(*arg),
        ),
        final(ctx).fuel <= old(ctx).fuel,
        frames_kept(old(ctx).model(), final(ctx).model()),
    decreases depth, 41nat, 0nat,
{
    match ctx.lookup(name) {
        Some(b) => call_value(ctx, depth, &b, arg, true),
        None => {
            ctx.fail(ErrorKind::UnrecognizedName, name.to_owned());
            Dynamic::empty()
        },
    }
}

/// The value of a name.
pub fn value_of(ctx: &mut Machine, depth: usize, name: &str) -> (r: Dynamic)
    ensures
        (dyn_model(r), final(ctx).model()) == get_var(depth as nat, old(ctx).model(), name@),
        final(ctx).fuel <= old(ctx).fuel,
        frames_kept(old(ctx).model(), final(ctx).model()),
    decreases depth, 41nat, 0nat,
{
    match ctx.lookup(name) {
        Some(b) => call_value(ctx, depth, &b, &Dynamic::boolean(false), false),
        None => {
            ctx.fail(ErrorKind::UnrecognizedName, name.to_owned());
            Dynamic::empty()
        },
    }
}

/// The value of a node as a count.
pub fn to_u32(ctx: &mut Machine, depth: usize, node: &Node) -> (r: u32)
    ensures
        (r, final(ctx).model()) == count_value(
            depth as nat,
            old(ctx).model(),
            node_model(*node),
        ),
        final(ctx).fuel <= old(ctx).fuel,
        frames_kept(old(ctx).model(), final(ctx).model()),
    decreases depth, 43nat, 0nat,
{
    let v = parse_node(ctx, depth, node);
    let n = num_of(ctx, depth, &v);
    number_count(ctx, &n)
}

/// The value of a run of statements: that of the last one.
pub fn parse_body(ctx: &mut Machine, depth: usize, body: &Vec<Node>) -> (r: Dynamic)
    ensures
        (dyn_model(r), final(ctx).model()) == eval_body(
            depth as nat,
            old(ctx).model(),
            nodes_model(body@),
            0,
            ValModel::String(Seq::empty()),
        ),
        final(ctx).fuel <= old(ctx).fuel,
        frames_kept(old(ctx).model(), final(ctx).model()),
    decreases depth, 44nat, 0nat,
{
    let mut last = Dynamic::text(String::new());
    let mut i: usize = 0;
    while i < body.len()
        invariant
            i <= body.len(),
            eval_body(
                depth as nat,
                old(ctx).model(),
                nodes_model(body@),
                0,
                ValModel::String(Seq::empty()),
            ) == eval_body(
                depth as nat,
                ctx.model(),
                nodes_model(body@),
                i as int,
                dyn_model(last),
            ),
            ctx.fuel <= old(ctx).fuel,
            frames_kept(old(ctx).model(), ctx.model()),
        decreases body.len() - i,
    {
        last = parse_node(ctx, depth, &body[i]);
        i += 1;
    }
    last
}

/// The value of a block. Whatever the block binds, it binds in a frame of
/// its own: afterwards every frame is as it was before.
pub fn parse_block(ctx: &mut Machine, depth: usize, body: &Vec<Node>, name: &Option<String>) -> (r:
    Dynamic)
    ensures
        (dyn_model(r), final(ctx).model()) == eval_block(
            depth as nat,
            old(ctx).model(),
            nodes_model(body@),
            name_model(*name),
        ),
        final(ctx).fuel <= old(ctx).fuel,
        frames_kept(old(ctx).model(), final(ctx).model()),
        final(ctx).model().envs == old(ctx).model().envs,
    decreases depth, 45nat, 0nat,
{
    let child = ctx.current();
    ctx.push_env(child);
    let v = value_of(ctx, depth, "_");
    match name {
        Some(n) => ctx.define_var(n.as_str(), v),
        None => ctx.define_var("_", v),
    }
    let r = parse_body(ctx, depth, body);
    ctx.pop_env();
    assert(ctx.model().envs =~= old(ctx).model().envs);
    r
}

/// The value of a node whose parameter is bound already.
pub fn parse_node_uniq(ctx: &mut Machine, depth: usize, node: &Node) -> (r: Dynamic)
    ensures
        (dyn_model(r), final(ctx).model()) == eval_uniq(
            depth as nat,
            old(ctx).model(),
            node_model(*node),
        ),
        final(ctx).fuel <= old(ctx).fuel,
        frames_kept(old(ctx).model(), final(ctx).model()),
    decreases depth, 45nat, 0nat,
{
    proof {
        lemma_node_model(*node);
    }
    match node {
        Node::Block(body, _) => parse_body(ctx, depth, body),
        _ => parse_node(ctx, depth, node),
    }
}

/// The values of a run of nodes.
pub fn parse_all(ctx: &mut Machine, depth: usize, nodes: &Vec<Node>) -> (r: Vec<Dynamic>)
    ensures
        (dyns_model(r@), final(ctx).model()) == eval_all(
            depth as nat,
            old(ctx).model(),
            nodes_model(nodes@),
            0,
            Seq::empty(),
        ),
        final(ctx).fuel <= old(ctx).fuel,
        frames_kept(old(ctx).model(), final(ctx).model()),
    decreases depth, 46nat, 0nat,
{
    let mut acc: Vec<Dynamic> = Vec::new();
    let mut i: usize = 0;
    assert(dyns_model(acc@) =~= Seq::<ValModel>::empty());
    while i < nodes.len()
        invariant
            i <= nodes.len(),
            eval_all(depth as nat, old(ctx).model(), nodes_model(nodes@), 0, Seq::empty())
                == eval_all(
                depth as nat,
                ctx.model(),
                nodes_model(nodes@),
                i as int,
                dyns_model(acc@),
            ),
            ctx.fuel <= old(ctx).fuel,
            frames_kept(old(ctx).model(), ctx.model()),
        decreases nodes.len() - i,
    {
        let v = parse_node(ctx, depth, &nodes[i]);
        push_value(&mut acc, v);
        i += 1;
    }
    acc
}

/// The value of an operator applied to its operands.
pub fn parse_op(ctx: &mut Machine, depth: usize, op: &str, left: &Vec<Node>, right: &Vec<Node>)
    -> (r: Dynamic)
    ensures
        (dyn_model(r), final(ctx).model()) == eval_op(
            depth as nat,
            old(ctx).model(),
            op@,
            nodes_model(left@),
            nodes_model(right@),
        ),
        final(ctx).fuel <= old(ctx).fuel,
        frames_kept(old(ctx).model(), final(ctx).model()),
    decreases depth, 90nat, 0nat,
{
    let symbol = chars_of(op);
    match lookup(&symbol) {
        None => {
            ctx.fail(ErrorKind::UnknownOperator, op.to_owned());
            Dynamic::empty()
        },
        Some(info) => {
            if left.len() < info.left as usize || right.len() < info.right as usize {
                ctx.fail(ErrorKind::MissingOperand, op.to_owned());
                return Dynamic::empty();
            }
            match info.code {
                OpCode::Add => do_arith(ctx, depth, &left[0], &right[0], BinaryOp::Add),
                OpCode::Sub => do_arith(ctx, depth, &left[0], &right[0], BinaryOp::Sub),
                OpCode::Mul => do_arith(ctx, depth, &left[0], &right[0], BinaryOp::Mul),
                OpCode::Div => do_arith(ctx, depth, &left[0], &right[0], BinaryOp::Div),
                OpCode::Rem => do_arith(ctx, depth, &left[0], &right[0], BinaryOp::Rem),
                OpCode::Pow => do_pow(ctx, depth, &left[0], &right[0]),
                OpCode::Abs => do_unary(ctx, depth, &left[0], UnaryOp::Abs),
                OpCode::Floor => do_unary(ctx, depth, &right[0], UnaryOp::Floor),
                OpCode::Ceil => do_unary(ctx, depth, &right[0], UnaryOp::Ceil),
                OpCode::Square => do_unary(ctx, depth, &right[0], UnaryOp::Square),
                OpCode::Sqrt => do_unary(ctx, depth, &right[0], UnaryOp::Sqrt),
                OpCode::Double => do_scale(ctx, depth, &right[0], BinaryOp::Mul, &two()),
                OpCode::Halve => do_scale(ctx, depth, &right[0], BinaryOp::Div, &two()),
                OpCode::Increment => do_step(ctx, depth, &right[0], BinaryOp::Add),
                OpCode::Decrement => do_step(ctx, depth, &right[0], BinaryOp::Sub),
                OpCode::IsSquare => do_is_square(ctx, depth, &left[0]),
                OpCode::Not => do_not(ctx, depth, &right[0]),
                OpCode::And => do_and(ctx, depth, &left[0], &right[0]),
                OpCode::Or => do_or(ctx, depth, &left[0], &right[0]),
                OpCode::Equal => do_equal(ctx, depth, &left[0], &right[0], false),
                OpCode::NotEqual => do_equal(ctx, depth, &left[0], &right[0], true),
                OpCode::Less => do_compare(ctx, depth, &left[0], &right[0], info.code),
                OpCode::LessEqual => do_compare(ctx, depth, &left[0], &right[0], info.code),
                OpCode::Greater => do_compare(ctx, depth, &left[0], &right[0], info.code),
                OpCode::GreaterEqual => do_compare(ctx, depth, &left[0], &right[0], info.code),
                OpCode::RangeFromOne => do_range_from_one(ctx, depth, &right[0]),
                OpCode::RangeDown => do_range_down(ctx, depth, &left[0]),
                OpCode::RangeInclusive => do_range(ctx, depth, &left[0], &right[0], true),
                OpCode::RangeExclusive => do_range(ctx, depth, &left[0], &right[0], false),
                OpCode::Length => do_length(ctx, depth, &left[0]),
                OpCode::Pair => do_pair(ctx, depth, &left[0], &right[0]),
                OpCode::Lines => do_pieces(ctx, depth, &left[0], '\n'),
                OpCode::Words => do_pieces(ctx, depth, &left[0], ' '),
                OpCode::Head => do_head(ctx, depth, &left[0]),
                OpCode::Tail => do_tail(ctx, depth, &left[0]),
                OpCode::Behead => do_behead(ctx, depth, &left[0]),
                OpCode::DropLast => do_drop_last(ctx, depth, &left[0]),
                OpCode::Halves => do_halves(ctx, depth, &right[0]),
                OpCode::SplitAt => do_split_at(ctx, depth, &left[0], &right[0]),
                OpCode::Reverse => do_reverse(ctx, depth, &left[0]),
                OpCode::Nth => do_nth(ctx, depth, &left[0], &right[0]),
                OpCode::IndexOf => do_index_of(ctx, depth, &left[0], &right[0]),
                OpCode::Concat => do_concat(ctx, depth, &left[0], &right[0]),
                OpCode::Zip => do_zip(ctx, depth, &left[0], &right[0]),
                OpCode::Call => do_call(ctx, depth, &left[0], &right[0]),
                OpCode::Define => do_define(ctx, &left[0], &right[0]),
                OpCode::Bind => do_bind(ctx, depth, &left[0], &right[0]),
                OpCode::MapEach => do_map(ctx, depth, &left[0], &right[0]),
                OpCode::Filter => do_filter(ctx, depth, &right[0], &right[1]),
                OpCode::Any => do_any(ctx, depth, &right[0], &right[1]),
                OpCode::Count => do_count(ctx, depth, &right[0], &right[1]),
                OpCode::Repeat => do_repeat(ctx, depth, &right[0], &right[1], &right[2]),
                OpCode::DoWhile => do_do_while(ctx, depth, &left[0], &right[0]),
                OpCode::Conditional => do_conditional(
                    ctx,
                    depth,
                    &left[0],
                    &right[0],
                    &right[1],
                ),
                OpCode::Fold => do_fold(ctx, depth, &left[0], &right[0]),
                OpCode::Adjacent => do_adjacent(ctx, depth, &left[0], &right[0]),
                OpCode::Group => do_group(ctx, depth, &left[0]),
                OpCode::Dedup => do_dedup(ctx, depth, &right[0], false),
                OpCode::DedupSieve => do_dedup(ctx, depth, &right[0], true),
                OpCode::Join => do_join(ctx, depth, &left[0], &right[0]),
                OpCode::Flatten => do_flatten(ctx, depth, &left[0]),
                OpCode::Transpose => do_transpose(ctx, depth, &left[0]),
                OpCode::Rangify => do_rangify(ctx, depth, &left[0], false),
                OpCode::RangifyInclusive => do_rangify(ctx, depth, &left[0], true),
                OpCode::RandomPick => do_pick(ctx, depth, &right[0]),
                OpCode::SortAscending => do_sort(ctx, depth, &right[0], false),
                OpCode::SortDescending => do_sort(ctx, depth, &right[0], true),
                OpCode::Primes => do_primes(ctx, depth, &right[0]),
                OpCode::Factors => do_factors(ctx, depth, &right[0]),
                OpCode::Bifurcate => do_bifurcate(ctx, depth, &right[0]),
                OpCode::Split => do_split(ctx, depth, &left[0], &right[0]),
                OpCode::Base => do_base(ctx, depth, &left[0], &right[0]),
                OpCode::NotAll => {
                    ctx.fail(ErrorKind::UnknownOperator, op.to_owned());
                    Dynamic::empty()
                },
                OpCode::MapFold => {
                    ctx.fail(ErrorKind::UnknownOperator, op.to_owned());
                    Dynamic::empty()
                },
            }
        },
    }
}

/// The numeral 2.
pub fn two() -> (n: Num)
    ensures
        n.text@ == seq!['2'],
{
    let mut v: Vec<char> = Vec::new();
    v.push('2');
    assert(v@ =~= seq!['2']);
    Num { text: string_of(&v) }
}

} // verus!
