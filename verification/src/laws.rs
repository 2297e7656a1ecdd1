//! What holds of the evaluator whatever the program: laws about walks
//! through sequences, about equality, about names, and about statements.

use crate::env::{env_get, lemma_env_get_other, lemma_env_get_set};
use crate::eval::{call_name, compare, eval_body, eval_node, get_var, literal_num, seq_next};
use crate::machine::{bind, cur_env, MachineModel, Order};
use crate::scalar::{op_step, values_equal};
use crate::text::{is_white, lemma_trimmed_same, trimmed};
use crate::tokens::NodeModel;
use crate::types::{BindingModel, SequenceModel, ValModel};
use crate::values::truth_numeral;

use crate::machine::BinaryOp;
use vstd::prelude::*;

verus! {

/// Whether a walk through the sequence is among the computed entries or
/// right behind them.
pub open spec fn walk_ok(q: SequenceModel) -> bool {
    q.index <= q.cstr.len()
}

/// The entry that a walk yields is the computed entry at the place where
/// the walk stood, the walk is one entry further, the computed entries
/// before it are as they were, and a step is paid.
pub proof fn lemma_next_is_cached(d: nat, s: MachineModel, q: SequenceModel)
    requires
        walk_ok(q),
    ensures
        ({
            let (x, q1, s1) = seq_next(d, s, q);
            &&& walk_ok(q1)
            &&& q1.length == q.length
            &&& q1.back == q.back
            &&& q1.cstr.len() >= q.cstr.len()
            &&& q1.cstr.take(q.cstr.len() as int) == q.cstr
            &&& x matches Some(v) ==> {
                &&& q1.index == q.index + 1
                &&& q1.cstr[q.index as int] == v
                &&& s1.stopped is None
            }
            &&& x is None ==> q1.index == q.index && q1.cstr == q.cstr
            &&& x is None && s1.stopped is None ==> q.length == Some(q.index) && s1 == s
        }),
{
    let (x, q1, s1) = seq_next(d, s, q);
    assert(q.cstr.take(q.cstr.len() as int) =~= q.cstr);
    if x is Some {
        if q.index < q.cstr.len() {
        } else {
            assert(q1.cstr.take(q.cstr.len() as int) =~= q.cstr);
        }
    }
}

/// A step of a walk that yields nothing leaves the sequence as it is. If
/// the state has not stopped either, the walk is at the end of the
/// sequence, and the state is as it was. No step changes the length of a
/// sequence or what its walk from the back has to hand out.
pub proof fn lemma_next_none(d: nat, s: MachineModel, q: SequenceModel)
    ensures
        ({
            let (x, q1, s1) = seq_next(d, s, q);
            &&& q1.length == q.length
            &&& q1.back == q.back
            &&& x is None ==> q1 == q
            &&& x is None && s1.stopped is None ==> q.length == Some(q.index) && s1 == s
            &&& q.length == Some(q.index) ==> x is None && s1 == s
        }),
{
}

/// The entries that `k` steps of a walk yield, behind `acc`, the sequence
/// after them, and the state.
pub open spec fn walk(d: nat, s: MachineModel, q: SequenceModel, k: nat, acc: Seq<ValModel>) -> (
    Seq<ValModel>,
    SequenceModel,
    MachineModel,
)
    decreases k,
{
    if k == 0 {
        (acc, q, s)
    } else {
        let (x, q1, s1) = seq_next(d, s, q);
        match x {
            Some(v) => walk(d, s1, q1, (k - 1) as nat, acc.push(v)),
            None => (acc, q1, s1),
        }
    }
}

/// The entries that the steps of a walk yield are the computed entries of
/// the sequence after the walk, in their order: the entry of the k-th step
/// is the k-th computed entry.
pub proof fn lemma_walk_is_cache(
    d: nat,
    s: MachineModel,
    q: SequenceModel,
    k: nat,
    acc: Seq<ValModel>,
)
    requires
        walk_ok(q),
        acc.len() == q.index,
        forall|i: int| 0 <= i < acc.len() ==> acc[i] == q.cstr[i],
    ensures
        ({
            let (items, qk, sk) = walk(d, s, q, k, acc);
            &&& walk_ok(qk)
            &&& items.len() == qk.index
            &&& items.len() <= acc.len() + k
            &&& forall|i: int| 0 <= i < items.len() ==> items[i] == qk.cstr[i]
        }),
    decreases k,
{
    if k > 0 {
        lemma_next_is_cached(d, s, q);
        let (x, q1, s1) = seq_next(d, s, q);
        match x {
            Some(v) => {
                let acc1 = acc.push(v);
                assert forall|i: int| 0 <= i < acc1.len() implies acc1[i] == q1.cstr[i] by {
                    if i < acc.len() {
                        assert(q1.cstr.take(q.cstr.len() as int)[i] == q.cstr[i]);
                    }
                }
                lemma_walk_is_cache(d, s1, q1, (k - 1) as nat, acc1);
            },
            None => {},
        }
    }
}

/// A boolean and a number are equal exactly if the backend finds the
/// number equal to 1, for true, or to 0, for false; whichever of the two
/// stands first. And true taken as a number is 1, false is 0.
pub proof fn lemma_boolean_number_equality(d: nat, s: MachineModel, b: bool, n: Seq<char>)
    ensures
        values_equal(s, ValModel::Boolean(b), ValModel::Number(n)) == values_equal(
            s,
            ValModel::Number(n),
            ValModel::Boolean(b),
        ),
        values_equal(s, ValModel::Boolean(b), ValModel::Number(n)).0 == (compare(
            s,
            n,
            if b {
                seq!['1']
            } else {
                seq!['0']
            },
        ).0 == Order::Equal),
        literal_num(d, s, ValModel::Boolean(b)) == (
            if b {
                seq!['1']
            } else {
                seq!['0']
            },
            s,
        ),
{
}

/// A boolean and a text are equal exactly if the text is `1`, for true, or
/// `0`, for false; whichever of the two stands first.
pub proof fn lemma_boolean_text_equality(s: MachineModel, b: bool, t: Seq<char>)
    ensures
        values_equal(s, ValModel::Boolean(b), ValModel::String(t)) == (t == truth_numeral(b), s),
        values_equal(s, ValModel::String(t), ValModel::Boolean(b)) == (t == truth_numeral(b), s),
{
}

/// The value of a name that stands for a value is that value, and so is
/// what the name yields for any argument; the state stays as it is.
pub proof fn lemma_bound_value_is_seen(
    d: nat,
    s: MachineModel,
    name: Seq<char>,
    v: ValModel,
    arg: ValModel,
)
    requires
        env_get(cur_env(s), name) == Some(BindingModel::Value(v)),
    ensures
        get_var(d, s, name) == (v, s),
        call_name(d, s, name, arg) == (v, s),
{
}

/// After `++` or `--` on a name, the name stands for the result in the
/// frame in which the operator was evaluated: its value there, and what it
/// yields there for any argument, is the value that the operator gave. The
/// name must be one that neither starts nor ends with white space, as all
/// names are that the lexer makes.
pub proof fn lemma_step_is_seen(
    d: nat,
    e: nat,
    s: MachineModel,
    name: Seq<char>,
    op: BinaryOp,
    arg: ValModel,
)
    requires
        name.len() > 0 ==> !is_white(name[0]) && !is_white(name.last()),
    ensures
        ({
            let (v, s1) = op_step(d, s, NodeModel::Variable(name), op);
            &&& env_get(cur_env(s1), name) == Some(BindingModel::Value(v))
            &&& get_var(e, s1, name) == (v, s1)
            &&& call_name(e, s1, name, arg) == (v, s1)
        }),
{
    lemma_trimmed_same(name);
    let (x, s0) = get_var(d, s, name);
    let (r, s2) = crate::scalar::apply_binary(d, s0, x, op, seq!['1']);
    if s2.envs.len() > 0 {
        lemma_env_get_set(s2.envs.last(), name, BindingModel::Value(r));
    } else {
        lemma_env_get_set(Seq::empty(), name, BindingModel::Value(r));
    }
}

/// `++` and `--` on a name that stands for a value that is no sequence
/// change nothing but what that name stands for: in the frame in which the
/// operator was evaluated every other name stands for what it stood for, and
/// the frames around it are as they were.
pub proof fn lemma_step_keeps_others(
    d: nat,
    s: MachineModel,
    name: Seq<char>,
    op: BinaryOp,
    v: ValModel,
    other: Seq<char>,
)
    requires
        s.envs.len() > 0,
        env_get(cur_env(s), name) == Some(BindingModel::Value(v)),
        !(v is Array),
        other != trimmed(name),
    ensures
        ({
            let (r, s1) = op_step(d, s, NodeModel::Variable(name), op);
            &&& s1.envs.len() == s.envs.len()
            &&& s1.envs.drop_last() == s.envs.drop_last()
            &&& env_get(cur_env(s1), other) == env_get(cur_env(s), other)
        }),
{
    let (x, s0) = get_var(d, s, name);
    assert(x == v && s0 == s);
    let (r, s2) = crate::scalar::apply_binary(d, s0, x, op, seq!['1']);
    assert(s2.envs == s.envs);
    lemma_env_get_other(s.envs.last(), trimmed(name), BindingModel::Value(r), other);
    let s1 = bind(s2, trimmed(name), BindingModel::Value(r));
    assert(s1.envs.drop_last() =~= s.envs.drop_last());
}

/// The value of a run of statements is the value of the last one,
/// evaluated in the state that the statements before it leave behind.
pub proof fn lemma_body_is_last(
    d: nat,
    s: MachineModel,
    body: Seq<NodeModel>,
    i: int,
    last: ValModel,
)
    requires
        0 <= i < body.len(),
    ensures
        eval_body(d, s, body, i, last) == eval_node(
            d,
            eval_body(d, s, body.drop_last(), i, last).1,
            body.last(),
        ),
    decreases body.len() - i,
{
    let front = body.drop_last();
    if i == body.len() - 1 {
        assert(eval_body(d, s, front, i, last) == (last, s));
        let (v, s1) = eval_node(d, s, body[i]);
        assert(eval_body(d, s1, body, i + 1, v) == (v, s1));
    } else {
        let (v, s1) = eval_node(d, s, body[i]);
        assert(front[i] == body[i]);
        lemma_body_is_last(d, s1, body, i + 1, v);
    }
}

} // verus!
