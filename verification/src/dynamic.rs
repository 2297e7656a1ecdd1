//! The coercions of dynamic values: a value is turned into a text, a number,
//! a truth value or a sequence on request.

use crate::eval::{
    array_of_value, attempt_call, bool_of, call_name, get_var, literal_array, literal_bool,
    literal_num, literal_string, num_of, text_of, value_of,
};
use crate::machine::{pop_env, push_env, Machine, MachineModel};
use crate::tokens::{node_model, Node, Num};
use crate::types::{
    clone_dyns, dyn_model, dyns_model, env_model, seq_model, Dynamic, Environment, Sequence,
    SequenceModel, ValModel,
};
use vstd::prelude::*;

verus! {

/// A value turned into a string value.
pub open spec fn into_string_spec(d: nat, s: MachineModel, v: ValModel) -> (
    ValModel,
    MachineModel,
) {
    let (t, s1) = literal_string(d, s, v);
    (ValModel::String(t), s1)
}

/// A value turned into a number value.
pub open spec fn into_num_spec(d: nat, s: MachineModel, v: ValModel) -> (ValModel, MachineModel) {
    let (n, s1) = literal_num(d, s, v);
    (ValModel::Number(n), s1)
}

/// A value turned into a boolean value.
pub open spec fn into_bool_spec(d: nat, s: MachineModel, v: ValModel) -> (ValModel, MachineModel) {
    let (b, s1) = literal_bool(d, s, v);
    (ValModel::Boolean(b), s1)
}

/// A value turned into a sequence value.
pub open spec fn into_array_spec(s: MachineModel, v: ValModel) -> (ValModel, MachineModel) {
    let (q, s1) = literal_array(s, v);
    (ValModel::Array(Box::new(q)), s1)
}

/// Turning a value into a string twice is the same as doing it once.
pub proof fn lemma_into_string_idempotent(d: nat, s: MachineModel, v: ValModel)
    ensures
        ({
            let (r, s1) = into_string_spec(d, s, v);
            into_string_spec(d, s1, r) == (r, s1)
        }),
{
}

/// Turning a value into a number twice is the same as doing it once.
pub proof fn lemma_into_num_idempotent(d: nat, s: MachineModel, v: ValModel)
    ensures
        ({
            let (r, s1) = into_num_spec(d, s, v);
            into_num_spec(d, s1, r) == (r, s1)
        }),
{
}

/// Turning a value into a boolean twice is the same as doing it once.
pub proof fn lemma_into_bool_idempotent(d: nat, s: MachineModel, v: ValModel)
    ensures
        ({
            let (r, s1) = into_bool_spec(d, s, v);
            into_bool_spec(d, s1, r) == (r, s1)
        }),
{
}

/// Turning a value into a sequence twice is the same as doing it once.
pub proof fn lemma_into_array_idempotent(s: MachineModel, v: ValModel)
    ensures
        ({
            let (r, s1) = into_array_spec(s, v);
            into_array_spec(s1, r) == (r, s1)
        }),
{
}

impl Dynamic {
    /// This value as a string value.
    pub fn into_string(&self, ctx: &mut Machine, depth: usize) -> (r: Dynamic)
        ensures
            (dyn_model(r), final(ctx).model()) == into_string_spec(
                depth as nat,
                old(ctx).model(),
                dyn_model(*self),
            ),
    {
        Dynamic::text(text_of(ctx, depth, self))
    }

    /// This value as a number value.
    pub fn into_num(&self, ctx: &mut Machine, depth: usize) -> (r: Dynamic)
        ensures
            (dyn_model(r), final(ctx).model()) == into_num_spec(
                depth as nat,
                old(ctx).model(),
                dyn_model(*self),
            ),
    {
        Dynamic::number(num_of(ctx, depth, self))
    }

    /// This value as a boolean value.
    pub fn into_bool(&self, ctx: &mut Machine, depth: usize) -> (r: Dynamic)
        ensures
            (dyn_model(r), final(ctx).model()) == into_bool_spec(
                depth as nat,
                old(ctx).model(),
                dyn_model(*self),
            ),
    {
        Dynamic::boolean(bool_of(ctx, depth, self))
    }

    /// This value as a sequence value.
    pub fn into_array(&self, ctx: &mut Machine) -> (r: Dynamic)
        ensures
            (dyn_model(r), final(ctx).model()) == into_array_spec(
                old(ctx).model(),
                dyn_model(*self),
            ),
    {
        Dynamic::array(array_of_value(ctx, self))
    }

    /// Turns this value into a string value.
    pub fn as_string(&mut self, ctx: &mut Machine, depth: usize)
        ensures
            (dyn_model(*final(self)), final(ctx).model()) == into_string_spec(
                depth as nat,
                old(ctx).model(),
                dyn_model(*old(self)),
            ),
    {
        let r = self.into_string(ctx, depth);
        *self = r;
    }

    /// Turns this value into a number value.
    pub fn as_num(&mut self, ctx: &mut Machine, depth: usize)
        ensures
            (dyn_model(*final(self)), final(ctx).model()) == into_num_spec(
                depth as nat,
                old(ctx).model(),
                dyn_model(*old(self)),
            ),
    {
        let r = self.into_num(ctx, depth);
        *self = r;
    }

    /// Turns this value into a boolean value.
    pub fn as_bool(&mut self, ctx: &mut Machine, depth: usize)
        ensures
            (dyn_model(*final(self)), final(ctx).model()) == into_bool_spec(
                depth as nat,
                old(ctx).model(),
                dyn_model(*old(self)),
            ),
    {
        let r = self.into_bool(ctx, depth);
        *self = r;
    }

    /// The text of this value.
    pub fn literal_string(&self, ctx: &mut Machine, depth: usize) -> (r: String)
        ensures
            (r@, final(ctx).model()) == literal_string(
                depth as nat,
                old(ctx).model(),
                dyn_model(*self),
            ),
    {
        text_of(ctx, depth, self)
    }

    /// The number of this value.
    pub fn literal_num(&self, ctx: &mut Machine, depth: usize) -> (r: Num)
        ensures
            (r.text@, final(ctx).model()) == literal_num(
                depth as nat,
                old(ctx).model(),
                dyn_model(*self),
            ),
    {
        num_of(ctx, depth, self)
    }

    /// The truth value of this value.
    pub fn literal_bool(&self, ctx: &mut Machine, depth: usize) -> (r: bool)
        ensures
            (r, final(ctx).model()) == literal_bool(
                depth as nat,
                old(ctx).model(),
                dyn_model(*self),
            ),
    {
        bool_of(ctx, depth, self)
    }

    /// The sequence of this value.
    pub fn literal_array(&self, ctx: &mut Machine) -> (r: Sequence)
        ensures
            (seq_model(r), final(ctx).model()) == literal_array(
                old(ctx).model(),
                dyn_model(*self),
            ),
    {
        array_of_value(ctx, self)
    }

    /// The string value that `f` makes of the text of this value.
    pub fn mutate_string<F: FnOnce(String) -> String>(
        &self,
        ctx: &mut Machine,
        depth: usize,
        f: F,
    ) -> (r: Dynamic)
        requires
            forall|t: String| f.requires((t,)),
        ensures
            final(ctx).model() == literal_string(
                depth as nat,
                old(ctx).model(),
                dyn_model(*self),
            ).1,
            exists|t: String, u: String|
                t@ == literal_string(depth as nat, old(ctx).model(), dyn_model(*self)).0
                    && f.ensures((t,), u) && dyn_model(r) == ValModel::String(u@),
    {
        let t = text_of(ctx, depth, self);
        let u = f(t);
        Dynamic::text(u)
    }

    /// The number value that `f` makes of the number of this value.
    pub fn mutate_num<F: FnOnce(Num) -> Num>(&self, ctx: &mut Machine, depth: usize, f: F) -> (r:
        Dynamic)
        requires
            forall|n: Num| f.requires((n,)),
        ensures
            final(ctx).model() == literal_num(
                depth as nat,
                old(ctx).model(),
                dyn_model(*self),
            ).1,
            exists|n: Num, m: Num|
                n.text@ == literal_num(depth as nat, old(ctx).model(), dyn_model(*self)).0
                    && f.ensures((n,), m) && dyn_model(r) == ValModel::Number(m.text@),
    {
        let n = num_of(ctx, depth, self);
        let m = f(n);
        Dynamic::number(m)
    }

    /// The boolean value that `f` makes of the truth value of this value.
    pub fn mutate_bool<F: FnOnce(bool) -> bool>(&self, ctx: &mut Machine, depth: usize, f: F) -> (r:
        Dynamic)
        requires
            forall|b: bool| f.requires((b,)),
        ensures
            final(ctx).model() == literal_bool(
                depth as nat,
                old(ctx).model(),
                dyn_model(*self),
            ).1,
            exists|c: bool|
                f.ensures(
                    (literal_bool(depth as nat, old(ctx).model(), dyn_model(*self)).0,),
                    c,
                ) && dyn_model(r) == ValModel::Boolean(c),
    {
        let b = bool_of(ctx, depth, self);
        let c = f(b);
        Dynamic::boolean(c)
    }

    /// The sequence value that `f` makes of the sequence of this value.
    pub fn mutate_array<F: FnOnce(Sequence) -> Sequence>(&self, ctx: &mut Machine, f: F) -> (r:
        Dynamic)
        requires
            forall|q: Sequence| f.requires((q,)),
        ensures
            final(ctx).model() == literal_array(old(ctx).model(), dyn_model(*self)).1,
            exists|q: Sequence, p: Sequence|
                seq_model(q) == literal_array(old(ctx).model(), dyn_model(*self)).0
                    && f.ensures((q,), p) && dyn_model(r) == ValModel::Array(
                    Box::new(seq_model(p)),
                ),
    {
        let q = array_of_value(ctx, self);
        let p = f(q);
        Dynamic::array(p)
    }
}

impl Sequence {
    /// The sequence with the given computed entries, generator block and
    /// length.
    pub fn from_iter(items: Vec<Dynamic>, block: Node, length: Option<usize>) -> (q: Self)
        ensures
            seq_model(q) == (SequenceModel {
                cstr: dyns_model(items@),
                length,
                block: node_model(block),
                back: None,
                env: None,
                index: 0,
            }),
    {
        Sequence::from_vec_dyn(items, block, length)
    }

    /// The sequence with copies of the given entries, the generator block
    /// and the length.
    pub fn from_vec(v: &Vec<Dynamic>, block: Node, length: Option<usize>) -> (q: Self)
        ensures
            seq_model(q) == (SequenceModel {
                cstr: dyns_model(v@),
                length,
                block: node_model(block),
                back: None,
                env: None,
                index: 0,
            }),
    {
        Sequence::from_vec_dyn(clone_dyns(v), block, length)
    }
}

impl Environment {
    /// The value of a name in this environment.
    pub fn get_var(&self, ctx: &mut Machine, depth: usize, name: &str) -> (r: Dynamic)
        ensures
            (dyn_model(r), final(ctx).model()) == ({
                let (v, s1) = get_var(
                    depth as nat,
                    push_env(old(ctx).model(), env_model(*self)),
                    name@,
                );
                (v, pop_env(s1).1)
            }),
    {
        ctx.push_env(self.clone());
        let v = value_of(ctx, depth, name);
        ctx.pop_env();
        v
    }

    /// What a name of this environment yields for an argument.
    pub fn attempt_call(&self, ctx: &mut Machine, depth: usize, name: &str, arg: &Dynamic) -> (r:
        Dynamic)
        ensures
            (dyn_model(r), final(ctx).model()) == ({
                let (v, s1) = call_name(
                    depth as nat,
                    push_env(old(ctx).model(), env_model(*self)),
                    name@,
                    dyn_model(*arg),
                );
                (v, pop_env(s1).1)
            }),
    {
        ctx.push_env(self.clone());
        let v = attempt_call(ctx, depth, name, arg);
        ctx.pop_env();
        v
    }
}

} // verus!
