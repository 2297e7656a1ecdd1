//! An interpreter for a compact, expression-oriented scripting language whose
//! programs work on one implicit argument named `_`.
//!
//! A program goes through three stages, the lexer ([`lexer`]), the postfix
//! converter ([`postfix`]) and the tree builder ([`ast`]); the tree is then
//! walked by the evaluator ([`eval`] and the modules of operators around
//! it), which works on dynamic values and lazy sequences ([`types`]). What
//! the converter and the builder keep of the tokens they are given is proved
//! in [`arrange`] and [`shape`], what holds of the evaluator in [`laws`].
//!
//! The library does no arithmetic on numbers. A number is held as its text,
//! and whenever the result of a numeric operation is needed, the evaluation
//! takes the next answer of a numeric backend from a list ([`machine`]). A
//! run ([`run::parse`]) ends with what the program printed, or with the
//! request that the list had no answer for; the caller then performs the
//! request, appends the answer, and runs the program again.

pub mod arrange;
pub mod ast;
pub mod back;
pub mod compress;
pub mod control;
pub mod deque;
pub mod dict;
pub mod digits;
pub mod divisors;
pub mod dynamic;
pub mod env;
pub mod eval;
pub mod fold;
pub mod laws;
pub mod lexer;
pub mod listops;
pub mod machine;
pub mod num;
pub mod numeric;
pub mod ops;
pub mod order;
pub mod postfix;
pub mod run;
pub mod scalar;
pub mod seqops;
pub mod shape;
pub mod show;
pub mod text;
pub mod tokens;
pub mod types;
pub mod values;

use crate::ast::{nodes_arity_ok, to_ast, to_ast_spec, AstError};
use crate::lexer::{lex, lex_spec, LexError};
use crate::postfix::{to_postfix, to_postfix_spec};
use crate::tokens::{nodes_model, Node, NodeModel};
use vstd::prelude::*;

verus! {

/// Why a text is no program.
#[derive(Clone, Copy, PartialEq, Eq, Structural, Debug)]
pub enum BuildError {
    /// A grouping character has no partner.
    Lex(LexError),
    /// An operator would need more implicit arguments than fit the machine.
    TooLong,
    /// The postfix form does not reduce to a tree.
    Ast(AstError),
}

/// The syntax tree of a program: its tokens, in postfix order, reduced to
/// nodes.
pub open spec fn build_ast_spec(prg: Seq<char>) -> Result<Seq<NodeModel>, BuildError> {
    match lex_spec(prg) {
        Err(e) => Err(BuildError::Lex(e)),
        Ok(tokens) => match to_postfix_spec(tokens) {
            None => Err(BuildError::TooLong),
            Some(postfix) => match to_ast_spec(postfix) {
                Err(e) => Err(BuildError::Ast(e)),
                Ok(nodes) => Ok(nodes),
            },
        },
    }
}

/// Builds the syntax tree of a program. In the tree every operator node has
/// as many operands on each side as the operator table gives its symbol.
/// The tokens of a program always reduce to a tree: building fails only
/// where lexing fails, or where an operator would need more implicit
/// arguments than fit the machine.
pub fn build_ast(prg: &str) -> (r: Result<Vec<Node>, BuildError>)
    ensures
        match r {
            Ok(nodes) => build_ast_spec(prg@) == Ok::<Seq<NodeModel>, BuildError>(
                nodes_model(nodes@),
            ) && nodes_arity_ok(nodes_model(nodes@)),
            Err(e) => build_ast_spec(prg@) == Err::<Seq<NodeModel>, BuildError>(e) && !(e is Ast),
        },
{
    match lex(prg) {
        Err(e) => Err(BuildError::Lex(e)),
        Ok(tokens) => match to_postfix(tokens.as_slice()) {
            None => Err(BuildError::TooLong),
            Some(postfix) => match to_ast(postfix.as_slice()) {
                Err(e) => Err(BuildError::Ast(e)),
                Ok(nodes) => Ok(nodes),
            },
        },
    }
}

} // verus!
