//! Dynamic values, lazy sequences and environments, with their models.

use crate::tokens::{node_model, Node, NodeModel, Num};
use vstd::prelude::*;

verus! {

/// What a dynamic value holds.
#[derive(Debug)]
pub enum Val {
    String(String),
    Number(Num),
    Boolean(bool),
    Array(Box<Sequence>),
    Empty,
}

/// The one kind of value that programs work on. What it holds decides its
/// kind; a value is turned into another kind on request.
#[derive(Debug)]
pub struct Dynamic {
    pub val: Val,
}

/// What a name stands for: a stored value, a function given by the
/// expression that it evaluates with `_` bound to its argument, or one of
/// the two output functions.
#[derive(Debug)]
pub enum Binding {
    Value(Dynamic),
    Function(Node),
    Print,
    PrintLine,
}

/// A mapping from names to what they stand for. No name occurs twice.
#[derive(Debug)]
pub struct Environment {
    pub vals: Vec<(String, Binding)>,
}

/// A lazy, possibly infinite sequence.
#[derive(Debug)]
pub struct Sequence {
    /// The entries computed so far.
    pub cstr: Vec<Dynamic>,
    /// The number of entries, absent for an infinite sequence.
    pub length: Option<usize>,
    /// The block that computes the next entry from those before it.
    pub block: Node,
    /// How many entries a walk from the back has still to hand out.
    pub back: Option<usize>,
    /// The environment in which the block is evaluated.
    pub env: Option<Environment>,
    /// How many entries a walk from the front has handed out.
    pub index: usize,
}

/// The model of a [`Dynamic`] and of a [`Val`].
pub enum ValModel {
    String(Seq<char>),
    Number(Seq<char>),
    Boolean(bool),
    Array(Box<SequenceModel>),
    Empty,
}

/// The model of a [`Binding`].
pub enum BindingModel {
    Value(ValModel),
    Function(NodeModel),
    Print,
    PrintLine,
}

/// The model of a [`Sequence`].
pub struct SequenceModel {
    pub cstr: Seq<ValModel>,
    pub length: Option<usize>,
    pub block: NodeModel,
    pub back: Option<usize>,
    pub env: Option<Seq<(Seq<char>, BindingModel)>>,
    pub index: usize,
}

/// The model of an [`Environment`]: its entries in order.
pub type EnvModel = Seq<(Seq<char>, BindingModel)>;

/// The model of what a value holds.
pub open spec fn val_model(v: Val) -> ValModel
    decreases v,
{
    match v {
        Val::String(s) => ValModel::String(s@),
        Val::Number(n) => ValModel::Number(n.text@),
        Val::Boolean(b) => ValModel::Boolean(b),
        Val::Array(s) => ValModel::Array(Box::new(seq_model(*s))),
        Val::Empty => ValModel::Empty,
    }
}

/// The model of a value.
pub open spec fn dyn_model(d: Dynamic) -> ValModel
    decreases d,
{
    val_model(d.val)
}

/// The model of a binding.
pub open spec fn binding_model(b: Binding) -> BindingModel
    decreases b,
{
    match b {
        Binding::Value(d) => BindingModel::Value(dyn_model(d)),
        Binding::Function(n) => BindingModel::Function(node_model(n)),
        Binding::Print => BindingModel::Print,
        Binding::PrintLine => BindingModel::PrintLine,
    }
}

/// The model of an environment.
pub open spec fn env_model(e: Environment) -> EnvModel
    decreases e,
{
    Seq::new(
        e.vals@.len(),
        |i: int|
            if 0 <= i < e.vals@.len() {
                (e.vals@[i].0@, binding_model(e.vals@[i].1))
            } else {
                (Seq::empty(), BindingModel::Print)
            },
    )
}

/// The model of a sequence.
pub open spec fn seq_model(s: Sequence) -> SequenceModel
    decreases s,
{
    SequenceModel {
        cstr: Seq::new(
            s.cstr@.len(),
            |i: int|
                if 0 <= i < s.cstr@.len() {
                    dyn_model(s.cstr@[i])
                } else {
                    ValModel::Empty
                },
        ),
        length: s.length,
        block: node_model(s.block),
        back: s.back,
        env: match s.env {
            Some(e) => Some(env_model(e)),
            None => None,
        },
        index: s.index,
    }
}

/// The models of a run of values.
pub open spec fn dyns_model(ds: Seq<Dynamic>) -> Seq<ValModel> {
    Seq::new(ds.len(), |i: int| dyn_model(ds[i]))
}

/// The model of a sequence holds the models of its entries.
pub proof fn lemma_seq_model(s: Sequence)
    ensures
        seq_model(s).cstr == dyns_model(s.cstr@),
{
    assert(seq_model(s).cstr =~= dyns_model(s.cstr@));
}

/// Appending a value appends its model.
pub proof fn lemma_dyns_push(ds: Seq<Dynamic>, d: Dynamic)
    ensures
        dyns_model(ds.push(d)) == dyns_model(ds).push(dyn_model(d)),
{
    assert(dyns_model(ds.push(d)) =~= dyns_model(ds).push(dyn_model(d)));
}

/// Appends a value to a run of values.
pub fn push_value(vs: &mut Vec<Dynamic>, v: Dynamic)
    ensures
        dyns_model(final(vs)@) == dyns_model(old(vs)@).push(dyn_model(v)),
        final(vs)@.len() == old(vs)@.len() + 1,
{
    proof {
        lemma_dyns_push(vs@, v);
    }
    vs.push(v);
}

/// A copy of a run of values.
pub fn clone_dyns(ds: &Vec<Dynamic>) -> (r: Vec<Dynamic>)
    ensures
        dyns_model(r@) == dyns_model(ds@),
    decreases *ds, 1nat,
{
    let mut out: Vec<Dynamic> = Vec::new();
    let mut i: usize = 0;
    assert(dyns_model(out@) =~= dyns_model(ds@.take(0)));
    while i < ds.len()
        invariant
            i <= ds.len(),
            dyns_model(out@) == dyns_model(ds@.take(i as int)),
        decreases ds.len() - i,
    {
        let d = ds[i].clone();
        proof {
            lemma_dyns_push(out@, d);
            lemma_dyns_push(ds@.take(i as int), ds@[i as int]);
            assert(ds@.take(i as int).push(ds@[i as int]) =~= ds@.take(i + 1));
        }
        out.push(d);
        i += 1;
    }
    assert(ds@.take(ds.len() as int) =~= ds@);
    out
}

impl Clone for Binding {
    fn clone(&self) -> (r: Self)
        ensures
            binding_model(r) == binding_model(*self),
        decreases *self, 0nat,
    {
        match self {
            Binding::Value(d) => Binding::Value(d.clone()),
            Binding::Function(n) => Binding::Function(n.clone()),
            Binding::Print => Binding::Print,
            Binding::PrintLine => Binding::PrintLine,
        }
    }
}

impl Clone for Environment {
    fn clone(&self) -> (r: Self)
        ensures
            env_model(r) == env_model(*self),
        decreases *self, 0nat,
    {
        let mut out: Vec<(String, Binding)> = Vec::new();
        let mut i: usize = 0;
        while i < self.vals.len()
            invariant
                i <= self.vals.len(),
                out@.len() == i,
                forall|k: int|
                    0 <= k < i ==> (#[trigger] out@[k]).0@ == self.vals@[k].0@ && binding_model(
                        out@[k].1,
                    ) == binding_model(self.vals@[k].1),
            decreases self.vals.len() - i,
        {
            let name = self.vals[i].0.clone();
            let b = self.vals[i].1.clone();
            out.push((name, b));
            i += 1;
        }
        let r = Environment { vals: out };
        assert(env_model(r) =~= env_model(*self));
        r
    }
}

impl Clone for Sequence {
    fn clone(&self) -> (r: Self)
        ensures
            seq_model(r) == seq_model(*self),
        decreases *self, 0nat,
    {
        let r = Sequence {
            cstr: clone_dyns(&self.cstr),
            length: self.length,
            block: self.block.clone(),
            back: self.back,
            env: match &self.env {
                Some(e) => Some(e.clone()),
                None => None,
            },
            index: self.index,
        };
        proof {
            lemma_seq_model(r);
            lemma_seq_model(*self);
        }
        r
    }
}

impl Clone for Val {
    fn clone(&self) -> (r: Self)
        ensures
            val_model(r) == val_model(*self),
        decreases *self, 0nat,
    {
        match self {
            Val::String(s) => Val::String(s.clone()),
            Val::Number(n) => Val::Number(n.clone()),
            Val::Boolean(b) => Val::Boolean(*b),
            Val::Array(s) => Val::Array(Box::new((**s).clone())),
            Val::Empty => Val::Empty,
        }
    }
}

impl Clone for Dynamic {
    fn clone(&self) -> (r: Self)
        ensures
            dyn_model(r) == dyn_model(*self),
        decreases *self, 0nat,
    {
        Dynamic { val: self.val.clone() }
    }
}

/// The model of an optional value.
pub open spec fn opt_model(o: Option<Dynamic>) -> Option<ValModel> {
    match o {
        Some(d) => Some(dyn_model(d)),
        None => None,
    }
}

impl Dynamic {
    /// The empty value.
    pub fn empty() -> (d: Self)
        ensures
            dyn_model(d) == ValModel::Empty,
    {
        Dynamic { val: Val::Empty }
    }

    /// The value that holds `val`. What it holds decides its kind; the tag
    /// is not looked at.
    pub fn new(val: Val, cur: u8) -> (d: Self)
        ensures
            dyn_model(d) == val_model(val),
    {
        Dynamic { val }
    }

    /// The string value of a text.
    pub fn text(s: String) -> (d: Self)
        ensures
            dyn_model(d) == ValModel::String(s@),
    {
        Dynamic { val: Val::String(s) }
    }

    /// The number value of a numeral.
    pub fn number(n: Num) -> (d: Self)
        ensures
            dyn_model(d) == ValModel::Number(n.text@),
    {
        Dynamic { val: Val::Number(n) }
    }

    /// The boolean value.
    pub fn boolean(b: bool) -> (d: Self)
        ensures
            dyn_model(d) == ValModel::Boolean(b),
    {
        Dynamic { val: Val::Boolean(b) }
    }

    /// The sequence value.
    pub fn array(q: Sequence) -> (d: Self)
        ensures
            dyn_model(d) == ValModel::Array(Box::new(seq_model(q))),
    {
        Dynamic { val: Val::Array(Box::new(q)) }
    }

    /// Whether the value holds a string.
    pub fn is_string(&self) -> (b: bool)
        ensures
            b == (dyn_model(*self) is String),
    {
        match &self.val {
            Val::String(_) => true,
            _ => false,
        }
    }

    /// Whether the value holds a number.
    pub fn is_num(&self) -> (b: bool)
        ensures
            b == (dyn_model(*self) is Number),
    {
        match &self.val {
            Val::Number(_) => true,
            _ => false,
        }
    }

    /// Whether the value holds a boolean.
    pub fn is_bool(&self) -> (b: bool)
        ensures
            b == (dyn_model(*self) is Boolean),
    {
        match &self.val {
            Val::Boolean(_) => true,
            _ => false,
        }
    }

    /// Whether the value holds a sequence.
    pub fn is_array(&self) -> (b: bool)
        ensures
            b == (dyn_model(*self) is Array),
    {
        match &self.val {
            Val::Array(_) => true,
            _ => false,
        }
    }
}

impl Sequence {
    /// The sequence with the given computed entries, generator block and
    /// length, at the start of a walk and without an environment.
    pub fn from_vec_dyn(v: Vec<Dynamic>, block: Node, length: Option<usize>) -> (q: Self)
        ensures
            seq_model(q) == (SequenceModel {
                cstr: dyns_model(v@),
                length,
                block: node_model(block),
                back: None,
                env: None,
                index: 0,
            }),
    {
        let q = Sequence { cstr: v, length, block, back: None, env: None, index: 0 };
        proof {
            lemma_seq_model(q);
        }
        q
    }

    /// Whether the sequence has a length.
    pub fn is_finite(&self) -> (b: bool)
        ensures
            b == (seq_model(*self).length is Some),
    {
        self.length.is_some()
    }

    /// The length of the sequence, if it has one.
    pub fn len(&self) -> (n: Option<usize>)
        ensures
            n == seq_model(*self).length,
    {
        self.length
    }

    /// Gives the sequence the environment in which its block is evaluated.
    pub fn set_env(&mut self, env: Environment)
        ensures
            seq_model(*final(self)) == (SequenceModel {
                env: Some(env_model(env)),
                ..seq_model(*old(self))
            }),
    {
        proof {
            lemma_seq_model(*self);
        }
        self.env = Some(env);
        proof {
            lemma_seq_model(*self);
        }
    }

    /// The sequence with the environment in which its block is evaluated.
    pub fn set_env_self(self, env: Environment) -> (q: Self)
        ensures
            seq_model(q) == (SequenceModel { env: Some(env_model(env)), ..seq_model(self) }),
    {
        let mut q = self;
        q.set_env(env);
        q
    }
}

} // verus!
