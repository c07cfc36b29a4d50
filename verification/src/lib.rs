//! A small expression-oriented calculator language: source text goes in, one
//! computed value comes out. The pipeline is a lexer, a recursive-descent
//! parser, a chain of lexical scopes, and a tree-walking evaluator with
//! built-in callables (pi, sin, factors, plot) and user-declared functions.
//! Each piece is specified by a mathematical model of its behaviour — the
//! token sequence of a text, the grammar as functions from positions to
//! trees, and the evaluation semantics — and proved to compute it.
use vstd::prelude::*;

pub mod callable;
pub mod environment;
pub mod error;
pub mod expr;
pub mod functions;
pub mod hints;
pub mod interpreter;
pub mod num;
pub mod parser;
pub mod plotter;
pub mod scanner;
pub mod stmt;
pub mod token;
pub mod value;

use crate::environment::EnvM;
use crate::error::Error;
use crate::interpreter::{spec_interpret, zero_num, Interpreter, MAX_DEPTH};
use crate::parser::{spec_parse, Parser};
use crate::plotter::{NoPlotter, Plotter};
use crate::scanner::{spec_scan, Scanner};
use crate::value::{Value, ValueM};

verus! {

/// What one evaluation call does to a session: scan, parse, and interpret.
/// A lexical or parse failure changes nothing; otherwise the statements run
/// until the first failure, and bindings made by statements that completed
/// stay in the chain either way. The result is a function of the text and
/// the prior chain alone, so evaluation is deterministic.
pub open spec fn spec_eval_source(txt: Seq<char>, st: EnvM) -> (
    Result<ValueM, Error>,
    EnvM,
    Seq<Seq<char>>,
) {
    match spec_scan(txt, 0) {
        None => (Err(Error::LexError), st, Seq::empty()),
        Some(toks) => match spec_parse(toks) {
            None => (Err(Error::ParseError), st, Seq::empty()),
            Some(stmts) => spec_interpret(
                stmts,
                0,
                st,
                MAX_DEPTH as nat,
                ValueM::Number(zero_num()),
            ),
        },
    }
}

/// Evaluation is deterministic: what one call yields — result, scope chain,
/// and printed lines — is a function of the source text and the prior chain
/// alone, with no hidden input. Re-running the same text against equal
/// sessions therefore yields equal outcomes; `Matika::eval` ensures exactly
/// `spec_eval_source` of its two inputs.
pub proof fn lemma_eval_deterministic(txt: Seq<char>, st1: EnvM, st2: EnvM)
    requires
        st1 == st2,
    ensures
        spec_eval_source(txt, st1) == spec_eval_source(txt, st2),
{
}

/// One session of the language: repeated evaluation calls against it
/// accumulate bindings, as a prompt loop does.
pub struct Matika<P: Plotter> {
    interpreter: Interpreter<P>,
}

impl Matika<NoPlotter> {
    /// A fresh session: the global scope with the built-ins, no plotter.
    pub fn new() -> (r: Matika<NoPlotter>)
        ensures
            r.wf(),
            r.env() == crate::environment::global_env(),
            r.out() == Seq::<Seq<char>>::empty(),
    {
        Matika { interpreter: Interpreter::new() }
    }
}

impl<P: Plotter> Matika<P> {
    /// The session's scope chain is never empty.
    pub closed spec fn wf(&self) -> bool {
        self.interpreter.wf()
    }

    /// The model of the session's scope chain.
    pub closed spec fn env(&self) -> EnvM {
        self.interpreter.environment@
    }

    /// The lines printed so far and not yet taken.
    pub closed spec fn out(&self) -> Seq<Seq<char>> {
        self.interpreter.out()
    }

    /// The same session, rendering plots through the given collaborator.
    pub fn with_plotter<Q: Plotter>(self, plotter: Q) -> (r: Matika<Q>)
        ensures
            r.env() == self.env(),
            r.out() == self.out(),
            r.wf() == self.wf(),
    {
        Matika { interpreter: self.interpreter.with_plotter(plotter) }
    }

    /// Evaluates one piece of source text against the session: scan, parse,
    /// interpret. Errors are returned, never thrown; bindings made before a
    /// failure remain for later calls.
    pub fn eval(&mut self, txt: String) -> (r: Result<Value, Error>)
        requires
            old(self).wf(),
        ensures
            final(self).wf(),
            ({
                let sr = spec_eval_source(txt@, old(self).env());
                &&& final(self).env() == sr.1
                &&& final(self).out() == old(self).out() + sr.2
                &&& match r {
                    Ok(v) => sr.0 == Ok::<ValueM, Error>(crate::value::value_view(v)),
                    Err(er) => sr.0 == Err::<ValueM, Error>(er),
                }
            }),
    {
        proof {
            assert(old(self).out() + Seq::<Seq<char>>::empty() =~= old(self).out());
        }
        let scanner = Scanner::new(txt);
        let tokens = match scanner.scan() {
            Err(er) => {
                return Err(er);
            },
            Ok(ts) => ts,
        };
        let mut parser = Parser::new(tokens);
        let stmts = match parser.parse() {
            Err(er) => {
                return Err(er);
            },
            Ok(ss) => ss,
        };
        self.interpreter.interpret(stmts)
    }

    /// The lines printed by evaluation so far; taking them empties the
    /// buffer, so a host can forward them to its output sink.
    pub fn take_output(&mut self) -> (out: Vec<String>)
        ensures
            final(self).env() == old(self).env(),
            final(self).wf() == old(self).wf(),
            final(self).out() == Seq::<Seq<char>>::empty(),
            Seq::new(out@.len(), |i: int| out@[i]@) == old(self).out(),
    {
        self.interpreter.take_output()
    }
}

} // verus!
