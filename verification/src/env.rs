//! Environments: what each name stands for.

use crate::text::{trimmed, trim_str};
use crate::tokens::{node_model, Node};
use crate::types::{
    binding_model, dyn_model, env_model, Binding, BindingModel, Dynamic, EnvModel, Environment,
};
use vstd::prelude::*;

verus! {

/// The index of the first entry at or behind `i` that has the name.
pub open spec fn env_find_from(env: EnvModel, name: Seq<char>, i: int) -> Option<int>
    decreases env.len() - i,
{
    if i < 0 || i >= env.len() {
        None
    } else if env[i].0 == name {
        Some(i)
    } else {
        env_find_from(env, name, i + 1)
    }
}

/// The index of the entry that has the name.
pub open spec fn env_find(env: EnvModel, name: Seq<char>) -> Option<int> {
    env_find_from(env, name, 0)
}

/// What the name stands for, if the environment holds it.
pub open spec fn env_get(env: EnvModel, name: Seq<char>) -> Option<BindingModel> {
    match env_find(env, name) {
        Some(i) => Some(env[i].1),
        None => None,
    }
}

/// The environment in which the name stands for the binding: the entry of
/// that name is replaced, or a new entry is added at the end.
pub open spec fn env_set(env: EnvModel, name: Seq<char>, b: BindingModel) -> EnvModel {
    match env_find(env, name) {
        Some(i) => env.update(i, (name, b)),
        None => env.push((name, b)),
    }
}

/// Whether no name occurs twice in the environment.
pub open spec fn env_unique(env: EnvModel) -> bool {
    forall|i: int, j: int| 0 <= i < j < env.len() ==> (#[trigger] env[i]).0 != (#[trigger] env[j]).0
}

/// A search that finds nothing has seen no entry of that name.
pub proof fn lemma_env_find_none(env: EnvModel, name: Seq<char>, i: int)
    requires
        0 <= i,
        env_find_from(env, name, i) is None,
    ensures
        forall|k: int| i <= k < env.len() ==> (#[trigger] env[k]).0 != name,
    decreases env.len() - i,
{
    if i < env.len() {
        lemma_env_find_none(env, name, i + 1);
    }
}

/// Setting a name keeps an environment free of double names.
pub proof fn lemma_env_set_unique(env: EnvModel, name: Seq<char>, b: BindingModel)
    requires
        env_unique(env),
    ensures
        env_unique(env_set(env, name, b)),
{
    lemma_env_find(env, name, 0);
    match env_find(env, name) {
        Some(k) => {},
        None => {
            lemma_env_find_none(env, name, 0);
        },
    }
}

/// Setting a name leaves what every other name stands for as it was.
pub proof fn lemma_env_get_other(
    env: EnvModel,
    name: Seq<char>,
    b: BindingModel,
    other: Seq<char>,
)
    requires
        other != name,
    ensures
        env_get(env_set(env, name, b), other) == env_get(env, other),
{
    lemma_env_find(env, name, 0);
    lemma_find_other(env, env_set(env, name, b), other, 0);
}

proof fn lemma_find_other(env: EnvModel, after: EnvModel, other: Seq<char>, i: int)
    requires
        0 <= i,
        after.len() >= env.len(),
        forall|k: int| 0 <= k < env.len() ==> ((#[trigger] after[k]).0 == other <==> env[k].0
            == other),
        forall|k: int| 0 <= k < env.len() && env[k].0 == other ==> #[trigger] after[k] == env[k],
        forall|k: int| env.len() <= k < after.len() ==> (#[trigger] after[k]).0 != other,
    ensures
        env_find_from(after, other, i) == env_find_from(env, other, i),
        env_find_from(env, other, i) matches Some(k) ==> after[k] == env[k],
    decreases after.len() - i,
{
    if i < after.len() {
        lemma_find_other(env, after, other, i + 1);
    }
}

/// A name found by the search is in range and names the entry found.
pub proof fn lemma_env_find(env: EnvModel, name: Seq<char>, i: int)
    requires
        0 <= i,
    ensures
        env_find_from(env, name, i) matches Some(k) ==> i <= k < env.len() && env[k].0 == name,
    decreases env.len() - i,
{
    if i < env.len() && env[i].0 != name {
        lemma_env_find(env, name, i + 1);
    }
}

/// A name that was set is found with its binding.
pub proof fn lemma_env_get_set(env: EnvModel, name: Seq<char>, b: BindingModel)
    ensures
        env_get(env_set(env, name, b), name) == Some(b),
{
    lemma_env_find(env, name, 0);
    match env_find(env, name) {
        Some(k) => {
            lemma_find_update(env, name, b, k, 0);
        },
        None => {
            lemma_find_push(env, name, b, 0);
        },
    }
}

proof fn lemma_find_update(env: EnvModel, name: Seq<char>, b: BindingModel, k: int, i: int)
    requires
        0 <= i <= k < env.len(),
        env_find_from(env, name, i) == Some(k),
    ensures
        env_find_from(env.update(k, (name, b)), name, i) == Some(k),
    decreases k - i,
{
    if i < k {
        lemma_find_update(env, name, b, k, i + 1);
    }
}

proof fn lemma_find_push(env: EnvModel, name: Seq<char>, b: BindingModel, i: int)
    requires
        0 <= i <= env.len(),
        env_find_from(env, name, i) is None,
    ensures
        env_find_from(env.push((name, b)), name, i) == Some(env.len() as int),
    decreases env.len() - i,
{
    if i < env.len() {
        lemma_find_push(env, name, b, i + 1);
    }
}

impl Environment {
    /// The environment that holds no name.
    pub fn init() -> (e: Self)
        ensures
            env_model(e) == Seq::<(Seq<char>, BindingModel)>::empty(),
            env_unique(env_model(e)),
    {
        let e = Environment { vals: Vec::new() };
        assert(env_model(e) =~= Seq::<(Seq<char>, BindingModel)>::empty());
        e
    }

    /// The index of the entry that has the name.
    pub fn find(&self, name: &str) -> (r: Option<usize>)
        ensures
            match r {
                Some(i) => env_find(env_model(*self), name@) == Some(i as int) && i
                    < self.vals@.len(),
                None => env_find(env_model(*self), name@) is None,
            },
    {
        let mut i: usize = 0;
        let wanted = name.to_owned();
        while i < self.vals.len()
            invariant
                i <= self.vals@.len(),
                wanted@ == name@,
                env_find(env_model(*self), name@) == env_find_from(
                    env_model(*self),
                    name@,
                    i as int,
                ),
            decreases self.vals.len() - i,
        {
            if self.vals[i].0 == wanted {
                return Some(i);
            }
            i += 1;
        }
        None
    }

    /// What the name stands for, if the environment holds it.
    pub fn get(&self, name: &str) -> (r: Option<&Binding>)
        ensures
            match r {
                Some(b) => env_get(env_model(*self), name@) == Some(binding_model(*b)),
                None => env_get(env_model(*self), name@) is None,
            },
    {
        match self.find(name) {
            Some(i) => Some(&self.vals[i].1),
            None => None,
        }
    }

    /// Lets the name stand for the binding.
    pub fn set(&mut self, name: &str, b: Binding)
        ensures
            env_model(*final(self)) == env_set(env_model(*old(self)), name@, binding_model(b)),
            env_unique(env_model(*old(self))) ==> env_unique(env_model(*final(self))),
    {
        proof {
            if env_unique(env_model(*self)) {
                lemma_env_set_unique(env_model(*self), name@, binding_model(b));
            }
        }
        match self.find(name) {
            Some(i) => {
                self.vals[i] = (name.to_owned(), b);
                assert(env_model(*self) =~= env_set(
                    env_model(*old(self)),
                    name@,
                    binding_model(b),
                ));
            },
            None => {
                self.vals.push((name.to_owned(), b));
                assert(env_model(*self) =~= env_set(
                    env_model(*old(self)),
                    name@,
                    binding_model(b),
                ));
            },
        }
    }

    /// Lets the name, without the white space around it, stand for the
    /// function that evaluates `body` with `_` bound to its argument.
    pub fn define(&mut self, name: &str, body: Node)
        ensures
            env_model(*final(self)) == env_set(
                env_model(*old(self)),
                trimmed(name@),
                BindingModel::Function(node_model(body)),
            ),
            env_unique(env_model(*old(self))) ==> env_unique(env_model(*final(self))),
    {
        self.set(trim_str(name).as_str(), Binding::Function(body));
    }

    /// Lets the name, without the white space around it, stand for the
    /// value.
    pub fn define_var(&mut self, name: &str, val: Dynamic)
        ensures
            env_model(*final(self)) == env_set(
                env_model(*old(self)),
                trimmed(name@),
                BindingModel::Value(dyn_model(val)),
            ),
            env_unique(env_model(*old(self))) ==> env_unique(env_model(*final(self))),
    {
        self.set(trim_str(name).as_str(), Binding::Value(val));
    }
}

} // verus!
