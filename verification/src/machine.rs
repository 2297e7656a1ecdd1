//! The evaluation machine: what the evaluator carries from step to step,
//! and the questions it puts to the numeric backend.
//!
//! The library does no arithmetic on numbers itself. Whenever the evaluator
//! needs the result of a numeric operation it takes the next answer from the
//! list it was given; when the list is used up it stops with the request
//! that it could not answer. The caller performs the request, appends the
//! answer, and evaluates again.

use crate::tokens::Num;
use crate::env::{env_get, env_set};
use crate::text::{trimmed, trim_str};
use crate::types::{
    binding_model, dyn_model, env_model, Binding, BindingModel, Dynamic, EnvModel, Environment,
};
use vstd::prelude::*;

verus! {

/// A numeric operation on one number.
#[derive(Clone, Copy, PartialEq, Eq, Structural, Debug)]
pub enum UnaryOp {
    Floor,
    Ceil,
    Abs,
    Sqrt,
    Square,
}

/// A numeric operation on two numbers.
#[derive(Clone, Copy, PartialEq, Eq, Structural, Debug)]
pub enum BinaryOp {
    Add,
    Sub,
    Mul,
    Div,
    Rem,
}

/// How two numbers compare.
#[derive(Clone, Copy, PartialEq, Eq, Structural, Debug)]
pub enum Order {
    Less,
    Equal,
    Greater,
    Unordered,
}

/// A question to the numeric backend.
#[derive(Debug)]
pub enum Request {
    /// The number that a text denotes, if it denotes one.
    Parse(String),
    /// The result of an operation on one number.
    Unary(UnaryOp, Num),
    /// The result of an operation on two numbers.
    Binary(BinaryOp, Num, Num),
    /// How the first number compares to the second.
    Compare(Num, Num),
    /// Whether the number is an integer.
    IsInteger(Num),
    /// The number rounded down and clamped to 32 unsigned bits, if it is a
    /// number at all.
    ToU32(Num),
    /// The number in base ten with the given count of significant digits.
    Format(Num, usize),
    /// The constant pi.
    Pi,
    /// An index below the given length, picked at random.
    Pick(usize),
}

/// The model of a [`Request`].
pub enum RequestModel {
    Parse(Seq<char>),
    Unary(UnaryOp, Seq<char>),
    Binary(BinaryOp, Seq<char>, Seq<char>),
    Compare(Seq<char>, Seq<char>),
    IsInteger(Seq<char>),
    ToU32(Seq<char>),
    Format(Seq<char>, usize),
    Pi,
    Pick(usize),
}

/// The model of a request.
pub open spec fn request_model(r: Request) -> RequestModel {
    match r {
        Request::Parse(s) => RequestModel::Parse(s@),
        Request::Unary(op, a) => RequestModel::Unary(op, a.text@),
        Request::Binary(op, a, b) => RequestModel::Binary(op, a.text@, b.text@),
        Request::Compare(a, b) => RequestModel::Compare(a.text@, b.text@),
        Request::IsInteger(a) => RequestModel::IsInteger(a.text@),
        Request::ToU32(a) => RequestModel::ToU32(a.text@),
        Request::Format(a, digits) => RequestModel::Format(a.text@, digits),
        Request::Pi => RequestModel::Pi,
        Request::Pick(n) => RequestModel::Pick(n),
    }
}

/// An answer of the numeric backend.
#[derive(Debug)]
pub enum Answer {
    /// A number.
    Number(Num),
    /// There is no such number.
    Invalid,
    /// The outcome of a comparison.
    Order(Order),
    /// The outcome of a test.
    Flag(bool),
    /// A count.
    Count(u32),
    /// A text.
    Text(String),
    /// An index.
    Index(usize),
}

/// The model of an [`Answer`].
pub enum AnswerModel {
    Number(Seq<char>),
    Invalid,
    Order(Order),
    Flag(bool),
    Count(u32),
    Text(Seq<char>),
    Index(usize),
}

/// The model of an answer.
pub open spec fn answer_model(a: Answer) -> AnswerModel {
    match a {
        Answer::Number(n) => AnswerModel::Number(n.text@),
        Answer::Invalid => AnswerModel::Invalid,
        Answer::Order(o) => AnswerModel::Order(o),
        Answer::Flag(b) => AnswerModel::Flag(b),
        Answer::Count(n) => AnswerModel::Count(n),
        Answer::Text(s) => AnswerModel::Text(s@),
        Answer::Index(i) => AnswerModel::Index(i),
    }
}

impl Clone for Answer {
    fn clone(&self) -> (r: Self)
        ensures
            answer_model(r) == answer_model(*self),
    {
        match self {
            Answer::Number(n) => Answer::Number(n.clone()),
            Answer::Invalid => Answer::Invalid,
            Answer::Order(o) => Answer::Order(*o),
            Answer::Flag(b) => Answer::Flag(*b),
            Answer::Count(n) => Answer::Count(*n),
            Answer::Text(s) => Answer::Text(s.clone()),
            Answer::Index(i) => Answer::Index(*i),
        }
    }
}

/// The kinds of failure of an evaluation.
#[derive(Clone, Copy, PartialEq, Eq, Structural, Debug)]
pub enum ErrorKind {
    /// A name that the environment does not hold.
    UnrecognizedName,
    /// A compressed string that addresses a word the dictionary lacks.
    MissingWord,
    /// A number literal that denotes no number.
    MalformedNumber,
    /// An operation that needs the whole of a sequence met an infinite one.
    InfiniteSequence,
    /// An entry was asked of a sequence that has none at that place.
    EmptySequence,
    /// A block refers to more earlier entries than the sequence has.
    TooFewEntries,
    /// A value that cannot be written as a literal.
    NoLiteral,
    /// A number that is no number where a count was needed.
    NotANumber,
    /// A text that is no integer in the base asked for.
    InvalidDigits,
    /// A character that names no base conversion.
    UnrecognizedBase,
    /// An operator that has no meaning.
    UnknownOperator,
    /// An operator node with fewer operands than its operator takes.
    MissingOperand,
    /// A program text built during evaluation that is no program.
    Syntax,
    /// An answer of another kind than the request asked for.
    BadAnswer,
    /// A sequence has to compute an entry and has no environment.
    NoEnvironment,
    /// Two values that cannot be compared.
    Incomparable,
    /// A count that does not fit the machine.
    TooLong,
    /// A text is split at a place inside a character.
    BadSplit,
}

/// A failure with the symbol or text that caused it.
#[derive(Debug)]
pub struct EvalError {
    pub kind: ErrorKind,
    pub detail: String,
}

/// Why an evaluation ended without a value.
#[derive(Debug)]
pub enum Stop {
    /// The answers are used up; this request is the next one.
    Need(Request),
    /// The program failed.
    Fail(EvalError),
    /// The step budget is used up.
    Exhausted,
}

/// The model of a [`Stop`].
pub enum StopModel {
    Need(RequestModel),
    Fail(ErrorKind, Seq<char>),
    Exhausted,
}

/// The model of a stop.
pub open spec fn stop_model(s: Stop) -> StopModel {
    match s {
        Stop::Need(r) => StopModel::Need(request_model(r)),
        Stop::Fail(e) => StopModel::Fail(e.kind, e.detail@),
        Stop::Exhausted => StopModel::Exhausted,
    }
}

/// The state of an evaluation.
#[derive(Debug)]
pub struct Machine {
    /// The answers of the numeric backend, in the order of the requests.
    pub answers: Vec<Answer>,
    /// How many answers are used.
    pub cursor: usize,
    /// How many steps the evaluation may still take.
    pub fuel: u64,
    /// What the program has printed.
    pub out: Vec<char>,
    /// Why the evaluation has stopped, if it has.
    pub stopped: Option<Stop>,
    /// The environments of the frames under evaluation, innermost last.
    pub envs: Vec<Environment>,
    /// The count of significant digits in printed numbers.
    pub output_precision: usize,
    /// The words that compressed strings expand to.
    pub dictionary: Vec<String>,
}

/// The model of a [`Machine`].
pub struct MachineModel {
    pub answers: Seq<AnswerModel>,
    pub cursor: usize,
    pub fuel: u64,
    pub out: Seq<char>,
    pub stopped: Option<StopModel>,
    pub envs: Seq<EnvModel>,
    pub output_precision: usize,
    pub dictionary: Seq<Seq<char>>,
}

/// The models of a run of answers.
pub open spec fn answers_model(a: Seq<Answer>) -> Seq<AnswerModel> {
    Seq::new(a.len(), |i: int| answer_model(a[i]))
}

/// The models of a stack of environments.
pub open spec fn envs_model(e: Seq<Environment>) -> Seq<EnvModel> {
    Seq::new(e.len(), |i: int| env_model(e[i]))
}

/// The words of a dictionary as character sequences.
pub open spec fn words_model(w: Seq<String>) -> Seq<Seq<char>> {
    Seq::new(w.len(), |i: int| w[i]@)
}

/// The model of an optional stop.
pub open spec fn stopped_model(s: Option<Stop>) -> Option<StopModel> {
    match s {
        Some(s) => Some(stop_model(s)),
        None => None,
    }
}

impl Machine {
    /// The model of the machine.
    pub open spec fn model(&self) -> MachineModel {
        MachineModel {
            answers: answers_model(self.answers@),
            cursor: self.cursor,
            fuel: self.fuel,
            out: self.out@,
            stopped: stopped_model(self.stopped),
            envs: envs_model(self.envs@),
            output_precision: self.output_precision,
            dictionary: words_model(self.dictionary@),
        }
    }
}

/// The state stopped for the given reason, unless it has stopped before.
pub open spec fn halt(s: MachineModel, why: StopModel) -> MachineModel {
    if s.stopped is Some {
        s
    } else {
        MachineModel { stopped: Some(why), ..s }
    }
}

/// The state failed with an error of the given kind, unless it has stopped
/// before.
pub open spec fn fail(s: MachineModel, kind: ErrorKind, detail: Seq<char>) -> MachineModel {
    halt(s, StopModel::Fail(kind, detail))
}

/// The state after one step is paid for. With no step left it stops.
pub open spec fn spend(s: MachineModel) -> MachineModel {
    if s.stopped is Some {
        s
    } else if s.fuel == 0 {
        halt(s, StopModel::Exhausted)
    } else {
        MachineModel { fuel: (s.fuel - 1) as u64, ..s }
    }
}

/// The answer to a request and the state after it. A stopped state answers
/// nothing; with the answers used up the state stops with the request.
pub open spec fn ask(s: MachineModel, r: RequestModel) -> (AnswerModel, MachineModel) {
    if s.stopped is Some {
        (AnswerModel::Invalid, s)
    } else if s.cursor < s.answers.len() {
        (s.answers[s.cursor as int], MachineModel { cursor: (s.cursor + 1) as usize, ..s })
    } else {
        (AnswerModel::Invalid, halt(s, StopModel::Need(r)))
    }
}

/// The state after the program has printed a text.
pub open spec fn emit(s: MachineModel, text: Seq<char>) -> MachineModel {
    if s.stopped is Some {
        s
    } else {
        MachineModel { out: s.out + text, ..s }
    }
}

/// Picks an index below `len` at random, by `rand::Rng::gen_range` on the
/// generator of the thread, which takes a range that is not empty and
/// returns a member of it.
#[verifier::external_body]
fn random_below(len: usize) -> (r: usize)
    requires
        len > 0,
    ensures
        r < len,
{
    rand::Rng::gen_range(&mut rand::thread_rng(), 0..len)
}

/// The answer to a request for a random index, which needs no numeric
/// backend: an index below the length that the request names. There is
/// none for any other request, nor for the length 0.
pub fn answer_pick(r: &Request) -> (a: Option<Answer>)
    ensures
        match a {
            Some(x) => *r is Pick && r->Pick_0 > 0 && x is Index && x->Index_0 < r->Pick_0,
            None => !(*r is Pick && r->Pick_0 > 0),
        },
{
    match r {
        Request::Pick(len) => {
            if *len > 0 {
                Some(Answer::Index(random_below(*len)))
            } else {
                None
            }
        },
        _ => None,
    }
}

impl Machine {
    /// A machine at the start of an evaluation.
    pub fn new(
        answers: Vec<Answer>,
        fuel: u64,
        output_precision: usize,
        dictionary: Vec<String>,
    ) -> (m: Machine)
        ensures
            m.model() == (MachineModel {
                answers: answers_model(answers@),
                cursor: 0,
                fuel,
                out: Seq::empty(),
                stopped: None,
                envs: Seq::empty(),
                output_precision,
                dictionary: words_model(dictionary@),
            }),
    {
        let m = Machine {
            answers,
            cursor: 0,
            fuel,
            out: Vec::new(),
            stopped: None,
            envs: Vec::new(),
            output_precision,
            dictionary,
        };
        assert(m.model().envs =~= Seq::<EnvModel>::empty());
        m
    }

    /// Whether the evaluation has stopped.
    pub fn is_stopped(&self) -> (b: bool)
        ensures
            b == (self.model().stopped is Some),
    {
        self.stopped.is_some()
    }

    /// Stops the evaluation, unless it has stopped before.
    pub fn halt(&mut self, why: Stop)
        ensures
            final(self).model() == halt(old(self).model(), stop_model(why)),
            final(self).fuel == old(self).fuel,
            final(self).model().envs == old(self).model().envs,
    {
        if self.stopped.is_none() {
            self.stopped = Some(why);
        }
    }

    /// Fails the evaluation, unless it has stopped before.
    pub fn fail(&mut self, kind: ErrorKind, detail: String)
        ensures
            final(self).model() == fail(old(self).model(), kind, detail@),
            final(self).fuel == old(self).fuel,
            final(self).model().envs == old(self).model().envs,
    {
        self.halt(Stop::Fail(EvalError { kind, detail }));
    }

    /// Pays for one step.
    pub fn spend(&mut self)
        ensures
            final(self).model() == spend(old(self).model()),
            final(self).fuel <= old(self).fuel,
            final(self).model().envs == old(self).model().envs,
            final(self).stopped is None ==> final(self).fuel < old(self).fuel,
    {
        if self.stopped.is_some() {
        } else if self.fuel == 0 {
            self.halt(Stop::Exhausted);
        } else {
            self.fuel = self.fuel - 1;
        }
    }

    /// Takes the answer to a request.
    pub fn ask(&mut self, r: Request) -> (a: Answer)
        ensures
            (answer_model(a), final(self).model()) == ask(old(self).model(), request_model(r)),
            final(self).fuel == old(self).fuel,
            final(self).model().envs == old(self).model().envs,
    {
        if self.stopped.is_some() {
            Answer::Invalid
        } else if self.cursor < self.answers.len() {
            let a = self.answers[self.cursor].clone();
            self.cursor = self.cursor + 1;
            a
        } else {
            self.halt(Stop::Need(r));
            Answer::Invalid
        }
    }

    /// Prints a text.
    pub fn emit(&mut self, text: &Vec<char>)
        ensures
            final(self).model() == emit(old(self).model(), text@),
            final(self).fuel == old(self).fuel,
            final(self).model().envs == old(self).model().envs,
    {
        if self.stopped.is_none() {
            let mut i: usize = 0;
            while i < text.len()
                invariant
                    i <= text.len(),
                    self.out@ == old(self).out@ + text@.take(i as int),
                    self.answers == old(self).answers,
                    self.cursor == old(self).cursor,
                    self.fuel == old(self).fuel,
                    self.stopped == old(self).stopped,
                    self.envs == old(self).envs,
                    self.output_precision == old(self).output_precision,
                    self.dictionary == old(self).dictionary,
                decreases text.len() - i,
            {
                self.out.push(text[i]);
                i += 1;
                assert(self.out@ =~= old(self).out@ + text@.take(i as int));
            }
            assert(text@.take(text.len() as int) =~= text@);
        }
    }
}

/// The environment of the innermost frame; with no frame, the empty one.
pub open spec fn cur_env(s: MachineModel) -> EnvModel {
    if s.envs.len() > 0 {
        s.envs.last()
    } else {
        Seq::empty()
    }
}

/// Whether the frames of a state are those of an earlier state but for what
/// the innermost one holds: there are as many, and each frame around the
/// innermost one is as it was. Nothing is said of a state without frames.
pub open spec fn frames_kept(a: MachineModel, b: MachineModel) -> bool {
    a.envs.len() > 0 ==> b.envs.len() == a.envs.len() && forall|i: int|
        0 <= i < a.envs.len() - 1 ==> #[trigger] b.envs[i] == a.envs[i]
}

/// The environment of the frame around the innermost one; the empty one if
/// there is none.
pub open spec fn under_env(s: MachineModel) -> EnvModel {
    if s.envs.len() > 1 {
        s.envs[s.envs.len() - 2]
    } else {
        Seq::empty()
    }
}

/// The state with a new innermost frame.
pub open spec fn push_env(s: MachineModel, e: EnvModel) -> MachineModel {
    MachineModel { envs: s.envs.push(e), ..s }
}

/// The environment of the innermost frame, and the state without that frame.
pub open spec fn pop_env(s: MachineModel) -> (EnvModel, MachineModel) {
    if s.envs.len() > 0 {
        (s.envs.last(), MachineModel { envs: s.envs.drop_last(), ..s })
    } else {
        (Seq::empty(), s)
    }
}

/// The state in which the name stands for the binding in the innermost
/// frame; with no frame, in a new one.
pub open spec fn bind(s: MachineModel, name: Seq<char>, b: BindingModel) -> MachineModel {
    if s.envs.len() > 0 {
        MachineModel {
            envs: s.envs.update(s.envs.len() - 1, env_set(s.envs.last(), name, b)),
            ..s
        }
    } else {
        MachineModel { envs: seq![env_set(Seq::empty(), name, b)], ..s }
    }
}

impl Machine {
    /// A copy of the environment of the innermost frame.
    pub fn current(&self) -> (e: Environment)
        ensures
            env_model(e) == cur_env(self.model()),
    {
        let n = self.envs.len();
        if n > 0 {
            self.envs[n - 1].clone()
        } else {
            Environment::init()
        }
    }

    /// A copy of the environment of the frame around the innermost one.
    pub fn under(&self) -> (e: Environment)
        ensures
            env_model(e) == under_env(self.model()),
    {
        let n = self.envs.len();
        if n > 1 {
            self.envs[n - 2].clone()
        } else {
            Environment::init()
        }
    }

    /// Opens a frame.
    pub fn push_env(&mut self, e: Environment)
        ensures
            final(self).model() == push_env(old(self).model(), env_model(e)),
            final(self).fuel == old(self).fuel,
    {
        self.envs.push(e);
        assert(self.model().envs =~= old(self).model().envs.push(env_model(e)));
    }

    /// Closes the innermost frame and hands out its environment.
    pub fn pop_env(&mut self) -> (e: Environment)
        ensures
            (env_model(e), final(self).model()) == pop_env(old(self).model()),
            final(self).fuel == old(self).fuel,
    {
        match self.envs.pop() {
            Some(e) => {
                assert(self.model().envs =~= old(self).model().envs.drop_last());
                e
            },
            None => Environment::init(),
        }
    }

    /// What the name stands for in the innermost frame.
    pub fn lookup(&self, name: &str) -> (r: Option<Binding>)
        ensures
            match r {
                Some(b) => env_get(cur_env(self.model()), name@) == Some(binding_model(b)),
                None => env_get(cur_env(self.model()), name@) is None,
            },
    {
        let n = self.envs.len();
        if n > 0 {
            match self.envs[n - 1].get(name) {
                Some(b) => Some(b.clone()),
                None => None,
            }
        } else {
            None
        }
    }

    /// Lets the name stand for the binding in the innermost frame.
    pub fn bind(&mut self, name: &str, b: Binding)
        ensures
            final(self).model() == bind(old(self).model(), name@, binding_model(b)),
            final(self).fuel == old(self).fuel,
            frames_kept(old(self).model(), final(self).model()),
    {
        let mut e = match self.envs.pop() {
            Some(e) => e,
            None => Environment::init(),
        };
        e.set(name, b);
        self.envs.push(e);
        assert(self.model().envs =~= bind(old(self).model(), name@, binding_model(b)).envs);
    }

    /// Lets the name, without the white space around it, stand for the value
    /// in the innermost frame.
    pub fn define_var(&mut self, name: &str, v: Dynamic)
        ensures
            final(self).model() == bind(
                old(self).model(),
                trimmed(name@),
                BindingModel::Value(dyn_model(v)),
            ),
            final(self).fuel == old(self).fuel,
            frames_kept(old(self).model(), final(self).model()),
    {
        self.bind(trim_str(name).as_str(), Binding::Value(v));
    }
}

} // verus!
