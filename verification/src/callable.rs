//! The callable capability: everything invocable with a fixed arity. The
//! variants form a closed set: the four built-ins and user-declared functions.
use vstd::prelude::*;

use crate::functions::{Factors, Function, Pi, Plot, Sin};
use crate::stmt::{fnc_view, FncM};

verus! {

/// Anything invocable: a built-in or a user-declared function.
#[derive(Debug)]
pub enum Callable {
    Pi(Pi),
    Sin(Sin),
    Factors(Factors),
    Plot(Plot),
    Function(Function),
}

/// The model of a callable.
pub ghost enum CallableM {
    Pi,
    Sin,
    Factors,
    Plot,
    Function(FncM),
}

/// The model of a callable value.
pub open spec fn callable_view(c: Callable) -> CallableM {
    match c {
        Callable::Pi(_) => CallableM::Pi,
        Callable::Sin(_) => CallableM::Sin,
        Callable::Factors(_) => CallableM::Factors,
        Callable::Plot(_) => CallableM::Plot,
        Callable::Function(f) => CallableM::Function(fnc_view(f.declaration)),
    }
}

/// The required argument count of a callable.
pub open spec fn arity_m(c: CallableM) -> nat {
    match c {
        CallableM::Pi => 0,
        CallableM::Sin => 1,
        CallableM::Factors => 1,
        CallableM::Plot => 1,
        CallableM::Function(f) => f.params.len(),
    }
}

/// The name under which a callable renders itself.
pub open spec fn callable_name(c: CallableM) -> Seq<char> {
    match c {
        CallableM::Pi => seq!['p', 'i'],
        CallableM::Sin => seq!['s', 'i', 'n'],
        CallableM::Factors => seq!['f', 'a', 'c', 't', 'o', 'r', 's'],
        CallableM::Plot => seq!['p', 'l', 'o', 't'],
        CallableM::Function(f) => f.name,
    }
}

impl Callable {
    /// The number of arguments a call must supply.
    pub fn arity(&self) -> (r: u64)
        ensures
            r as nat == arity_m(callable_view(*self)),
    {
        match self {
            Callable::Pi(p) => p.arity(),
            Callable::Sin(s) => s.arity(),
            Callable::Factors(f) => f.arity(),
            Callable::Plot(p) => p.arity(),
            Callable::Function(f) => f.arity(),
        }
    }
}

impl Clone for Callable {
    /// A clone has the same model as the original.
    fn clone(&self) -> (r: Callable)
        ensures
            callable_view(r) == callable_view(*self),
    {
        match self {
            Callable::Pi(p) => Callable::Pi(*p),
            Callable::Sin(s) => Callable::Sin(*s),
            Callable::Factors(f) => Callable::Factors(*f),
            Callable::Plot(p) => Callable::Plot(*p),
            Callable::Function(f) => Callable::Function(f.clone()),
        }
    }
}

} // verus!
