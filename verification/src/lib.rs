//! A small scripting language: lexer, parser, syntax tree and evaluator.
//!
//! A source text is cut into tokens ([`lexer`]), the tokens are parsed into a
//! program ([`parser`], after the grammar in [`grammar`]), and the program is
//! run by a machine that takes one step at a time ([`evaluation`]). Values
//! are described in [`object`], the scopes that bind names to them in
//! [`store`], and what the operators do in [`operators`]. Numbers are carried
//! as numerals ([`number`]); computing with them is left to the program that
//! embeds the machine, which also supplies the native functions that reach
//! outside. What holds of the language whatever the program is proved in
//! [`laws`].

pub mod ast;
pub mod evaluation;
pub mod globals;
pub mod grammar;
pub mod laws;
pub mod lexer;
pub mod number;
pub mod object;
pub mod operators;
pub mod parser;
pub mod std_library;
pub mod store;
pub mod token;

use crate::evaluation::{loaded, parsed, run, Action, Eval, EvalView};
use crate::parser::texts;
use crate::store::{ScopeView, Store};
use vstd::prelude::*;

verus! {

/// What became of a source text that was handed over to be run.
pub enum Interpreted {
    /// The text could not be read: these are the messages on it.
    Rejected(Vec<String>),
    /// The text was read and its program was started: this is the machine,
    /// and what it said when it stopped.
    Started(Eval, Action),
}

/// A machine that has run nothing yet.
pub open spec fn fresh() -> EvalView {
    EvalView {
        scopes: seq![ScopeView { bindings: Seq::empty(), outer: None }],
        store: 0,
        tasks: Seq::empty(),
        value: None,
        diagnostics: Seq::empty(),
    }
}

/// Parses a source text and, if nothing is wrong with it, runs its program
/// on a new machine for up to `budget` steps. A text with errors is not run.
pub fn interpret(content: String, budget: usize) -> (r: Interpreted)
    ensures
        match r {
            Interpreted::Rejected(errors) => parsed(content@).1.len() > 0 && texts(errors@)
                == parsed(content@).1,
            Interpreted::Started(eval, action) => parsed(content@).1.len() == 0 && (
                eval@,
                action@,
            ) == run(loaded(fresh(), parsed(content@).0), budget as nat),
        },
{
    let (program, errors) = crate::parser::parse(content);
    if errors.len() > 0 {
        return Interpreted::Rejected(errors);
    }
    let mut evaluator = Eval::new(Store::new());
    let action = evaluator.eval(program, budget);
    Interpreted::Started(evaluator, action)
}

} // verus!
