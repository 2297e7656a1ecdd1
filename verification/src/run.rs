//! Running a program: the input it sees, the names it starts with, and what
//! becomes of its result.

use crate::build_ast;
use crate::build_ast_spec;
use crate::digits::{int_of_text, parse_int};
use crate::env::{env_set, env_unique};
use crate::eval::{
    array_from, array_of_value, bool_of, collect, collect_seq, display, eval_body, literal_array,
    literal_bool, literal_num, num_of, parse_body, print_value, with_env, zero,
};
use crate::machine::{
    Answer, AnswerModel, ask, BinaryOp, bind, emit, ErrorKind, EvalError, fail, frames_kept,
    Machine, MachineModel, push_env, Request, RequestModel, Stop, StopModel,
};
use crate::num::{decimal, decimal_chars, num_of_usize};
use crate::scalar::{binary, binary_number};
use crate::seqops::{nth_entry, nth_of};
use crate::text::{chars_of, string_of, trim_str, trimmed};
use crate::tokens::{nodes_model, Node, NodeModel, Num};
use crate::types::{
    dyn_model, dyns_model, env_model, Binding, BindingModel, Dynamic, EnvModel, Environment,
    ValModel,
};
use crate::values::array_of;
use vstd::prelude::*;

verus! {

/// The numbers from `s` to `n`, in base ten, with a space between them.
pub open spec fn range_text(s: nat, n: nat) -> Seq<char>
    decreases n,
{
    if s > n {
        Seq::empty()
    } else if s == n {
        decimal(n)
    } else {
        range_text(s, (n - 1) as nat) + seq![' '] + decimal(n)
    }
}

/// The text of the numbers from `s` to `n`, with a space between them.
pub fn create_str_range(s: usize, n: usize) -> (r: String)
    ensures
        r@ == range_text(s as nat, n as nat),
{
    let mut out: Vec<char> = Vec::new();
    if s > n {
        return string_of(&out);
    }
    let first = decimal_chars(s as u64);
    let mut k: usize = 0;
    while k < first.len()
        invariant
            k <= first.len(),
            out@ =~= first@.take(k as int),
        decreases first.len() - k,
    {
        out.push(first[k]);
        k += 1;
    }
    assert(first@.take(first.len() as int) =~= first@);
    let mut i: usize = s;
    while i < n
        invariant
            s <= i <= n,
            out@ == range_text(s as nat, i as nat),
        decreases n - i,
    {
        i += 1;
        let ghost before = out@;
        out.push(' ');
        let digits = decimal_chars(i as u64);
        let mut j: usize = 0;
        while j < digits.len()
            invariant
                j <= digits.len(),
                out@ =~= before + seq![' '] + digits@.take(j as int),
            decreases digits.len() - j,
        {
            out.push(digits[j]);
            j += 1;
        }
        assert(digits@.take(digits.len() as int) =~= digits@);
    }
    string_of(&out)
}

/// The length or index that a text denotes in base ten: digits behind an
/// optional `+`. None if the text is no such thing or the number does not
/// fit.
pub open spec fn usize_of_text(t: Seq<char>) -> Option<usize> {
    if t.len() > 0 && t[0] == '-' {
        None
    } else {
        match int_of_text(t, 10) {
            Some(v) => if v <= usize::MAX {
                Some(v as usize)
            } else {
                None
            },
            None => None,
        }
    }
}

/// The length or index that a text denotes.
pub fn parse_usize(t: &str) -> (r: Option<usize>)
    ensures
        r == usize_of_text(t@),
{
    let c = chars_of(t);
    if c.len() > 0 && c[0] == '-' {
        return None;
    }
    match parse_int(&c, 10) {
        Some(v) => {
            if v >= 0 && v <= usize::MAX as i128 {
                Some(v as usize)
            } else {
                None
            }
        },
        None => None,
    }
}

/// How a program is run.
#[derive(Clone, Copy, Debug)]
pub struct Options {
    /// The input is the numbers from 1 to 10.
    pub one_ten: bool,
    /// The input is the numbers from 1 to 100.
    pub one_hundred: bool,
    /// The input, a number, is replaced by the numbers from 1 to it.
    pub rangeify: bool,
    /// The input, a number, is replaced by the numbers from 0 to below it.
    pub zero_range: bool,
    /// The result is replaced by its first entry.
    pub first: bool,
    /// The result is replaced by its last entry.
    pub last: bool,
    /// The result is replaced by its entry at the index that the input
    /// names.
    pub index: bool,
    /// The result is replaced by the sum of its entries.
    pub sum: bool,
    /// The result is replaced by the number of its entries.
    pub size: bool,
    /// The result is replaced by its negation.
    pub not: bool,
    /// The count of significant digits in printed numbers.
    pub output_precision: usize,
    /// How deep evaluations may nest.
    pub depth: usize,
    /// How many steps the evaluation may take.
    pub fuel: u64,
}

/// The input that a program sees: the given one, or the range that the
/// options put in its place. There is none when a range is asked for and
/// the input is no number, or is 0 for a range from 0 to below it.
pub open spec fn input_spec(o: Options, input: Seq<char>) -> Option<Seq<char>> {
    let a = if o.one_ten {
        range_text(1, 10)
    } else {
        input
    };
    let b = if o.one_hundred {
        range_text(1, 100)
    } else {
        a
    };
    if o.rangeify {
        match usize_of_text(b) {
            Some(n) => {
                let c = range_text(1, n as nat);
                if o.zero_range {
                    match usize_of_text(c) {
                        Some(m) => if m > 0 {
                            Some(range_text(0, (m - 1) as nat))
                        } else {
                            None
                        },
                        None => None,
                    }
                } else {
                    Some(c)
                }
            },
            None => None,
        }
    } else if o.zero_range {
        match usize_of_text(b) {
            Some(m) => if m > 0 {
                Some(range_text(0, (m - 1) as nat))
            } else {
                None
            },
            None => None,
        }
    } else {
        Some(b)
    }
}

/// The input that a program sees.
pub fn adjust_input(o: &Options, input: &str) -> (r: Option<String>)
    ensures
        match r {
            Some(t) => input_spec(*o, input@) == Some(t@),
            None => input_spec(*o, input@) is None,
        },
{
    let mut text = input.to_owned();
    if o.one_ten {
        text = create_str_range(1, 10);
    }
    if o.one_hundred {
        text = create_str_range(1, 100);
    }
    if o.rangeify {
        match parse_usize(text.as_str()) {
            Some(n) => {
                text = create_str_range(1, n);
            },
            None => {
                return None;
            },
        }
    }
    if o.zero_range {
        match parse_usize(text.as_str()) {
            Some(m) => {
                if m > 0 {
                    text = create_str_range(0, m - 1);
                } else {
                    return None;
                }
            },
            None => {
                return None;
            },
        }
    }
    Some(text)
}

/// The program text as the wrapping options change it: between brackets,
/// as a block before the fold operator, as a group before the flatten
/// operator, as a group before the index operator; in this order.
pub open spec fn wrap_spec(prg: Seq<char>, array: bool, map: bool, flat: bool, find: bool) -> Seq<
    char,
> {
    let a = if array {
        seq!['['] + prg + seq![']']
    } else {
        prg
    };
    let b = if map {
        seq!['{'] + a + seq!['}', '\\']
    } else {
        a
    };
    let c = if flat {
        seq!['('] + b + seq![')', ':', '_']
    } else {
        b
    };
    if find {
        seq!['('] + c + seq![')', ':', 'i']
    } else {
        c
    }
}

fn wrapped(open: char, inner: &Vec<char>, close: &Vec<char>) -> (r: Vec<char>)
    ensures
        r@ == seq![open] + inner@ + close@,
{
    let mut out: Vec<char> = Vec::new();
    out.push(open);
    let mut i: usize = 0;
    while i < inner.len()
        invariant
            i <= inner.len(),
            out@ =~= seq![open] + inner@.take(i as int),
        decreases inner.len() - i,
    {
        out.push(inner[i]);
        i += 1;
    }
    assert(inner@.take(inner.len() as int) =~= inner@);
    let mut k: usize = 0;
    while k < close.len()
        invariant
            k <= close.len(),
            out@ =~= seq![open] + inner@ + close@.take(k as int),
        decreases close.len() - k,
    {
        out.push(close[k]);
        k += 1;
    }
    assert(close@.take(close.len() as int) =~= close@);
    out
}

/// Wraps a program as the options say.
pub fn wrap_program(prg: &str, array: bool, map: bool, flat: bool, find: bool) -> (r: String)
    ensures
        r@ == wrap_spec(prg@, array, map, flat, find),
{
    let mut text = chars_of(prg);
    if array {
        let mut close: Vec<char> = Vec::new();
        close.push(']');
        assert(close@ =~= seq![']']);
        text = wrapped('[', &text, &close);
    }
    if map {
        let mut close: Vec<char> = Vec::new();
        close.push('}');
        close.push('\\');
        assert(close@ =~= seq!['}', '\\']);
        text = wrapped('{', &text, &close);
    }
    if flat {
        let mut close: Vec<char> = Vec::new();
        close.push(')');
        close.push(':');
        close.push('_');
        assert(close@ =~= seq![')', ':', '_']);
        text = wrapped('(', &text, &close);
    }
    if find {
        let mut close: Vec<char> = Vec::new();
        close.push(')');
        close.push(':');
        close.push('i');
        assert(close@ =~= seq![')', ':', 'i']);
        text = wrapped('(', &text, &close);
    }
    string_of(&text)
}

/// The names of the functions that every program starts with, each with
/// the program text that defines it.
pub open spec fn builtins() -> Seq<(Seq<char>, Seq<char>)> {
    seq![
        ("f"@, "*\\(~||[1])"@),
        ("fact"@, "*\\(~||[1])"@),
        ("me"@, "(+\\)/(#)"@),
        ("mean"@, "(+\\)/(#)"@),
        ("ma"@, "(:>) :{"@),
        ("max"@, "(:>) :{"@),
        ("mo"@, ":@&ma:{"@),
        ("mode"@, ":@&ma:{"@),
        ("mi"@, "(:<) :{"@),
        ("min"@, "(:<) :{"@),
        ("med"@, "(:-#&%2=0)&&:-(((:<)?(--:-#))+((:<)?:-#))||(:<)?:v:-#"@),
        ("median"@, "(:-#&%2=0)&&:-(((:<)?(--:-#))+((:<)?:-#))||(:<)?:v:-#"@),
        ("sdev"@, ":/((@v{:*(v-me)}).me)"@),
        ("crt"@, ":{@a{:}@a<>}&:_"@),
        ("cartesian"@, ":{@a{:}@a<>}&:_"@),
        ("eq"@, ":@#=1"@),
        ("equal"@, ":@#=1"@),
    ]
}

/// The environment with the functions from index `i` on defined. A
/// function is the first expression of its program text.
pub open spec fn with_builtins(env: EnvModel, list: Seq<(Seq<char>, Seq<char>)>, i: int)
    -> EnvModel
    decreases list.len() - i,
{
    if i < 0 || i >= list.len() {
        env
    } else {
        with_builtins(
            match build_ast_spec(list[i].1) {
                Ok(nodes) => if nodes.len() > 0 {
                    env_set(env, trimmed(list[i].0), BindingModel::Function(nodes[0]))
                } else {
                    env
                },
                Err(_) => env,
            },
            list,
            i + 1,
        )
    }
}

/// The values that every program starts with, but for the two numbers: `_`
/// is the input, `a` an empty sequence, `c` an empty text, `Fi` and `Bu`
/// the texts `Fizz` and `Buzz`; `ol` and `outl` print a line, `o` and `out`
/// print.
pub open spec fn start_values(input: Seq<char>) -> EnvModel {
    let e1 = env_set(Seq::empty(), trimmed("_"@), BindingModel::Value(ValModel::String(input)));
    let e2 = env_set(e1, trimmed("a"@), BindingModel::Value(array_of(Seq::empty())));
    let e3 = env_set(e2, trimmed("c"@), BindingModel::Value(ValModel::String(Seq::empty())));
    let e4 = env_set(e3, trimmed("Fi"@), BindingModel::Value(ValModel::String("Fizz"@)));
    let e5 = env_set(e4, trimmed("Bu"@), BindingModel::Value(ValModel::String("Buzz"@)));
    let e6 = env_set(e5, trimmed("ol"@), BindingModel::PrintLine);
    let e7 = env_set(e6, trimmed("outl"@), BindingModel::PrintLine);
    let e8 = env_set(e7, trimmed("o"@), BindingModel::Print);
    env_set(e8, trimmed("out"@), BindingModel::Print)
}

/// The digits of Euler's number that programs know it by.
pub open spec fn euler_digits() -> Seq<char> {
    "2.7182818284590452353602874713527"@
}

/// The state in which the innermost frame holds the two numbers that every
/// program starts with: `E` and `pi`, both asked of the backend.
pub open spec fn with_constants(s: MachineModel) -> MachineModel {
    let (e, s1) = ask(s, RequestModel::Parse(euler_digits()));
    let s2 = match e {
        AnswerModel::Number(n) => bind(
            s1,
            trimmed("E"@),
            BindingModel::Value(ValModel::Number(n)),
        ),
        _ => fail(s1, ErrorKind::BadAnswer, Seq::empty()),
    };
    let (p, s3) = ask(s2, RequestModel::Pi);
    match p {
        AnswerModel::Number(n) => bind(
            s3,
            trimmed("pi"@),
            BindingModel::Value(ValModel::Number(n)),
        ),
        _ => fail(s3, ErrorKind::BadAnswer, Seq::empty()),
    }
}

/// The sum of the values from index `i` on, each taken as a number, added
/// to `acc`.
pub open spec fn sum_from(d: nat, s: MachineModel, items: Seq<ValModel>, i: int, acc: Seq<char>)
    -> (Seq<char>, MachineModel)
    decreases items.len() - i,
{
    if i < 0 || i >= items.len() {
        (acc, s)
    } else {
        let (n, s1) = literal_num(d, s, items[i]);
        let (r, s2) = binary(s1, BinaryOp::Add, acc, n);
        sum_from(d, s2, items, i + 1, r)
    }
}

/// All entries of a value taken as a sequence that is evaluated in the
/// innermost frame.
pub open spec fn entries_of(d: nat, s: MachineModel, v: ValModel) -> (Seq<ValModel>, MachineModel) {
    let (q, s1) = literal_array(s, v);
    collect(d, s1, with_env(s1, q), Seq::empty())
}

/// The result with the first entry in its place, if asked for.
pub open spec fn take_first(d: nat, s: MachineModel, o: Options, v: ValModel) -> (
    ValModel,
    MachineModel,
) {
    if o.first {
        let (items, s1) = entries_of(d, s, v);
        if items.len() > 0 {
            (items[0], s1)
        } else {
            (ValModel::Empty, fail(s1, ErrorKind::EmptySequence, Seq::empty()))
        }
    } else {
        (v, s)
    }
}

/// The result with the last entry in its place, if asked for.
pub open spec fn take_last(d: nat, s: MachineModel, o: Options, v: ValModel) -> (
    ValModel,
    MachineModel,
) {
    if o.last {
        let (items, s1) = entries_of(d, s, v);
        if items.len() > 0 {
            (items.last(), s1)
        } else {
            (ValModel::Empty, fail(s1, ErrorKind::EmptySequence, Seq::empty()))
        }
    } else {
        (v, s)
    }
}

/// The result with the entry at the index that the input names in its
/// place, if asked for.
pub open spec fn take_index(
    d: nat,
    s: MachineModel,
    o: Options,
    input: Seq<char>,
    v: ValModel,
) -> (ValModel, MachineModel) {
    if o.index {
        match usize_of_text(input) {
            Some(i) => {
                let (q, s1) = literal_array(s, v);
                let (x, s2) = nth_of(d, s1, with_env(s1, q), i as nat);
                match x {
                    Some(e) => (e, s2),
                    None => (ValModel::Empty, fail(s2, ErrorKind::EmptySequence, Seq::empty())),
                }
            },
            None => (ValModel::Empty, fail(s, ErrorKind::InvalidDigits, input)),
        }
    } else {
        (v, s)
    }
}

/// The result with the sum of its entries, their count, or its negation in
/// its place, as far as asked for, in this order.
pub open spec fn reduce(d: nat, s: MachineModel, o: Options, v: ValModel) -> (
    ValModel,
    MachineModel,
) {
    let (v1, s1) = if o.sum {
        let (items, s1) = entries_of(d, s, v);
        let (t, s2) = sum_from(d, s1, items, 0, seq!['0']);
        (ValModel::Number(t), s2)
    } else {
        (v, s)
    };
    let (v2, s2) = if o.size {
        let (items, s2) = entries_of(d, s1, v1);
        (ValModel::Number(decimal(items.len())), s2)
    } else {
        (v1, s1)
    };
    if o.not {
        let (b, s3) = literal_bool(d, s2, v2);
        (ValModel::Boolean(!b), s3)
    } else {
        (v2, s2)
    }
}

/// How a run ends.
#[derive(Debug)]
pub enum Outcome {
    /// The program is through; this is what it printed.
    Done(String),
    /// The answers are used up; this request is the next one. The text is
    /// what the program has printed so far.
    Need(Request, String),
    /// The program failed; the text is what it had printed.
    Failed(EvalError, String),
    /// The depth or the step budget is used up; the text is what the program
    /// had printed.
    Exhausted(String),
    /// The options ask for a range and the input names none.
    BadInput,
}

/// The model of an [`Outcome`].
pub enum OutcomeModel {
    Done(Seq<char>),
    Need(RequestModel, Seq<char>),
    Failed(ErrorKind, Seq<char>, Seq<char>),
    Exhausted(Seq<char>),
    BadInput,
}

/// The model of an outcome.
pub open spec fn outcome_model(o: Outcome) -> OutcomeModel {
    match o {
        Outcome::Done(t) => OutcomeModel::Done(t@),
        Outcome::Need(r, t) => OutcomeModel::Need(crate::machine::request_model(r), t@),
        Outcome::Failed(e, t) => OutcomeModel::Failed(e.kind, e.detail@, t@),
        Outcome::Exhausted(t) => OutcomeModel::Exhausted(t@),
        Outcome::BadInput => OutcomeModel::BadInput,
    }
}

/// How a state ends a run. Whatever the end, the outcome holds what the
/// program has printed.
pub open spec fn outcome_of(s: MachineModel) -> OutcomeModel {
    match s.stopped {
        None => OutcomeModel::Done(s.out),
        Some(StopModel::Need(r)) => OutcomeModel::Need(r, s.out),
        Some(StopModel::Fail(kind, detail)) => OutcomeModel::Failed(kind, detail, s.out),
        Some(StopModel::Exhausted) => OutcomeModel::Exhausted(s.out),
    }
}

/// The state of a run after the program and what the options ask of its
/// result: the statements are evaluated in turn in a frame that holds the
/// names every program starts with, the result is reduced as the options
/// say, and printed with a line end.
pub open spec fn run_state(
    ast: Seq<NodeModel>,
    o: Options,
    input: Seq<char>,
    start: MachineModel,
) -> MachineModel {
    let d = o.depth as nat;
    let s0 = push_env(start, with_builtins(start_values(input), builtins(), 0));
    let s1 = with_constants(s0);
    let (v, s2) = eval_body(d, s1, ast, 0, ValModel::String(Seq::empty()));
    let (v1, s3) = take_first(d, s2, o, v);
    let (v2, s4) = take_last(d, s3, o, v1);
    let (v3, s5) = take_index(d, s4, o, input, v2);
    let (v4, s6) = reduce(d, s5, o, v3);
    let (t, s7) = display(d, s6, v4);
    emit(s7, t.push('\n'))
}

/// How the run of a program ends, given the answers of the backend so far.
pub open spec fn run_spec(
    ast: Seq<NodeModel>,
    o: Options,
    input: Seq<char>,
    answers: Seq<AnswerModel>,
    dictionary: Seq<Seq<char>>,
) -> OutcomeModel {
    match input_spec(o, input) {
        None => OutcomeModel::BadInput,
        Some(text) => outcome_of(
            run_state(
                ast,
                o,
                text,
                MachineModel {
                    answers,
                    cursor: 0,
                    fuel: o.fuel,
                    out: Seq::empty(),
                    stopped: None,
                    envs: Seq::empty(),
                    output_precision: o.output_precision,
                    dictionary,
                },
            ),
        ),
    }
}

fn define_builtin(env: &mut Environment, name: &str, source: &str)
    ensures
        env_model(*final(env)) == (match build_ast_spec(source@) {
            Ok(nodes) => if nodes.len() > 0 {
                env_set(env_model(*old(env)), trimmed(name@), BindingModel::Function(nodes[0]))
            } else {
                env_model(*old(env))
            },
            Err(_) => env_model(*old(env)),
        }),
        env_unique(env_model(*old(env))) ==> env_unique(env_model(*final(env))),
{
    match build_ast(source) {
        Ok(nodes) => {
            if nodes.len() > 0 {
                env.define(name, nodes[0].clone());
            }
        },
        Err(_) => {},
    }
}

/// The models of a list of names and program texts.
pub open spec fn sources_model(list: Seq<(String, String)>) -> Seq<(Seq<char>, Seq<char>)> {
    Seq::new(list.len(), |i: int| (list[i].0@, list[i].1@))
}

fn add_source(list: &mut Vec<(String, String)>, name: &str, source: &str)
    ensures
        sources_model(final(list)@) == sources_model(old(list)@).push((name@, source@)),
{
    list.push((name.to_owned(), source.to_owned()));
    assert(sources_model(list@) =~= sources_model(old(list)@).push((name@, source@)));
}

fn first_sources() -> (list: Vec<(String, String)>)
    ensures
        sources_model(list@) == builtins().take(10),
{
    let mut list: Vec<(String, String)> = Vec::new();
    assert(sources_model(list@) =~= Seq::<(Seq<char>, Seq<char>)>::empty());
    add_source(&mut list, "f", "*\\(~||[1])");
    add_source(&mut list, "fact", "*\\(~||[1])");
    add_source(&mut list, "me", "(+\\)/(#)");
    add_source(&mut list, "mean", "(+\\)/(#)");
    add_source(&mut list, "ma", "(:>) :{");
    add_source(&mut list, "max", "(:>) :{");
    add_source(&mut list, "mo", ":@&ma:{");
    add_source(&mut list, "mode", ":@&ma:{");
    add_source(&mut list, "mi", "(:<) :{");
    add_source(&mut list, "min", "(:<) :{");
    assert(sources_model(list@) =~= builtins().take(10));
    list
}

/// The names of the functions that every program starts with, each with
/// the program text that defines it.
pub fn builtin_sources() -> (list: Vec<(String, String)>)
    ensures
        sources_model(list@) == builtins(),
{
    let mut list = first_sources();
    add_source(&mut list, "med", "(:-#&%2=0)&&:-(((:<)?(--:-#))+((:<)?:-#))||(:<)?:v:-#");
    add_source(&mut list, "median", "(:-#&%2=0)&&:-(((:<)?(--:-#))+((:<)?:-#))||(:<)?:v:-#");
    add_source(&mut list, "sdev", ":/((@v{:*(v-me)}).me)");
    add_source(&mut list, "crt", ":{@a{:}@a<>}&:_");
    add_source(&mut list, "cartesian", ":{@a{:}@a<>}&:_");
    add_source(&mut list, "eq", ":@#=1");
    add_source(&mut list, "equal", ":@#=1");
    assert(sources_model(list@) =~= builtins());
    list
}

fn start_values_env(input: &str) -> (env: Environment)
    ensures
        env_model(env) == start_values(input@),
        env_unique(env_model(env)),
{
    let mut env = Environment::init();
    env.define_var("_", Dynamic::text(input.to_owned()));
    let none: Vec<Dynamic> = Vec::new();
    assert(dyns_model(none@) =~= Seq::<ValModel>::empty());
    env.define_var("a", array_from(none));
    env.define_var("c", Dynamic::text(String::new()));
    env.define_var("Fi", Dynamic::text("Fizz".to_owned()));
    env.define_var("Bu", Dynamic::text("Buzz".to_owned()));
    env.set(trim_str("ol").as_str(), Binding::PrintLine);
    env.set(trim_str("outl").as_str(), Binding::PrintLine);
    env.set(trim_str("o").as_str(), Binding::Print);
    env.set(trim_str("out").as_str(), Binding::Print);
    env
}

/// The environment that holds the names every program starts with, but for
/// the two numbers.
pub fn start_environment(input: &str) -> (env: Environment)
    ensures
        env_model(env) == with_builtins(start_values(input@), builtins(), 0),
        env_unique(env_model(env)),
{
    let mut env = start_values_env(input);
    let list = builtin_sources();
    let mut i: usize = 0;
    while i < list.len()
        invariant
            i <= list.len(),
            sources_model(list@) == builtins(),
            env_unique(env_model(env)),
            with_builtins(start_values(input@), builtins(), 0) == with_builtins(
                env_model(env),
                builtins(),
                i as int,
            ),
        decreases list.len() - i,
    {
        assert(sources_model(list@)[i as int] == (list@[i as int].0@, list@[i as int].1@));
        define_builtin(&mut env, list[i].0.as_str(), list[i].1.as_str());
        i += 1;
    }
    env
}

fn define_constants(ctx: &mut Machine)
    ensures
        final(ctx).model() == with_constants(old(ctx).model()),
        final(ctx).fuel == old(ctx).fuel,
        frames_kept(old(ctx).model(), final(ctx).model()),
{
    let e = ctx.ask(Request::Parse("2.7182818284590452353602874713527".to_owned()));
    match e {
        Answer::Number(n) => ctx.define_var("E", Dynamic::number(n)),
        _ => ctx.fail(ErrorKind::BadAnswer, String::new()),
    }
    let p = ctx.ask(Request::Pi);
    match p {
        Answer::Number(n) => ctx.define_var("pi", Dynamic::number(n)),
        _ => ctx.fail(ErrorKind::BadAnswer, String::new()),
    }
}

fn entries(ctx: &mut Machine, depth: usize, v: &Dynamic) -> (r: Vec<Dynamic>)
    ensures
        (dyns_model(r@), final(ctx).model()) == entries_of(
            depth as nat,
            old(ctx).model(),
            dyn_model(*v),
        ),
        final(ctx).fuel <= old(ctx).fuel,
        frames_kept(old(ctx).model(), final(ctx).model()),
{
    let q = array_of_value(ctx, v);
    let q = q.set_env_self(ctx.current());
    collect_seq(ctx, depth, q)
}

fn first_of_result(ctx: &mut Machine, o: &Options, v: Dynamic) -> (r: Dynamic)
    ensures
        (dyn_model(r), final(ctx).model()) == take_first(
            o.depth as nat,
            old(ctx).model(),
            *o,
            dyn_model(v),
        ),
{
    if o.first {
        let items = entries(ctx, o.depth, &v);
        if items.len() > 0 {
            items[0].clone()
        } else {
            ctx.fail(ErrorKind::EmptySequence, String::new());
            Dynamic::empty()
        }
    } else {
        v
    }
}

fn last_of_result(ctx: &mut Machine, o: &Options, v: Dynamic) -> (r: Dynamic)
    ensures
        (dyn_model(r), final(ctx).model()) == take_last(
            o.depth as nat,
            old(ctx).model(),
            *o,
            dyn_model(v),
        ),
{
    if o.last {
        let items = entries(ctx, o.depth, &v);
        let n = items.len();
        if n > 0 {
            items[n - 1].clone()
        } else {
            ctx.fail(ErrorKind::EmptySequence, String::new());
            Dynamic::empty()
        }
    } else {
        v
    }
}

fn index_of_result(ctx: &mut Machine, o: &Options, input: &String, v: Dynamic) -> (r: Dynamic)
    ensures
        (dyn_model(r), final(ctx).model()) == take_index(
            o.depth as nat,
            old(ctx).model(),
            *o,
            input@,
            dyn_model(v),
        ),
{
    if o.index {
        match parse_usize(input.as_str()) {
            Some(i) => {
                let q = array_of_value(ctx, &v);
                let q = q.set_env_self(ctx.current());
                match nth_entry(ctx, o.depth, q, i) {
                    Some(e) => e,
                    None => {
                        ctx.fail(ErrorKind::EmptySequence, String::new());
                        Dynamic::empty()
                    },
                }
            },
            None => {
                ctx.fail(ErrorKind::InvalidDigits, input.clone());
                Dynamic::empty()
            },
        }
    } else {
        v
    }
}

fn sum_values(ctx: &mut Machine, depth: usize, items: &Vec<Dynamic>) -> (r: Num)
    ensures
        (r.text@, final(ctx).model()) == sum_from(
            depth as nat,
            old(ctx).model(),
            dyns_model(items@),
            0,
            seq!['0'],
        ),
{
    let mut acc = zero();
    let mut i: usize = 0;
    while i < items.len()
        invariant
            i <= items.len(),
            sum_from(depth as nat, old(ctx).model(), dyns_model(items@), 0, seq!['0'])
                == sum_from(depth as nat, ctx.model(), dyns_model(items@), i as int, acc.text@),
        decreases items.len() - i,
    {
        let n = num_of(ctx, depth, &items[i]);
        acc = binary_number(ctx, BinaryOp::Add, &acc, &n);
        i += 1;
    }
    acc
}

fn reduce_result(ctx: &mut Machine, o: &Options, v: Dynamic) -> (r: Dynamic)
    ensures
        (dyn_model(r), final(ctx).model()) == reduce(
            o.depth as nat,
            old(ctx).model(),
            *o,
            dyn_model(v),
        ),
{
    let mut v = v;
    if o.sum {
        let items = entries(ctx, o.depth, &v);
        v = Dynamic::number(sum_values(ctx, o.depth, &items));
    }
    if o.size {
        let items = entries(ctx, o.depth, &v);
        v = Dynamic::number(num_of_usize(items.len()));
    }
    if o.not {
        let b = bool_of(ctx, o.depth, &v);
        v = Dynamic::boolean(!b);
    }
    v
}

fn outcome(ctx: Machine) -> (r: Outcome)
    ensures
        outcome_model(r) == outcome_of(ctx.model()),
{
    let printed = string_of(&ctx.out);
    match ctx.stopped {
        None => Outcome::Done(printed),
        Some(Stop::Need(r)) => Outcome::Need(r, printed),
        Some(Stop::Fail(e)) => Outcome::Failed(e, printed),
        Some(Stop::Exhausted) => Outcome::Exhausted(printed),
    }
}

/// Runs a program on an input with the answers that the numeric backend
/// has given so far. When the outcome is a request, the caller performs
/// it, appends the answer to the answers, and runs the program again. Every
/// outcome but a bad input holds what the program has printed up to there,
/// so that a caller can show it as it grows from run to run.
pub fn parse(
    ast: &Vec<Node>,
    options: &Options,
    input: &str,
    answers: Vec<Answer>,
    dictionary: Vec<String>,
) -> (r: Outcome)
    ensures
        outcome_model(r) == run_spec(
            nodes_model(ast@),
            *options,
            input@,
            crate::machine::answers_model(answers@),
            crate::machine::words_model(dictionary@),
        ),
{
    let text = match adjust_input(options, input) {
        Some(t) => t,
        None => {
            return Outcome::BadInput;
        },
    };
    let mut ctx = Machine::new(answers, options.fuel, options.output_precision, dictionary);
    ctx.push_env(start_environment(text.as_str()));
    define_constants(&mut ctx);
    let v = parse_body(&mut ctx, options.depth, ast);
    let v1 = first_of_result(&mut ctx, options, v);
    let v2 = last_of_result(&mut ctx, options, v1);
    let v3 = index_of_result(&mut ctx, options, &text, v2);
    let v4 = reduce_result(&mut ctx, options, v3);
    let mut t = print_value(&mut ctx, options.depth, &v4);
    t.push('\n');
    ctx.emit(&t);
    outcome(ctx)
}

} // verus!
