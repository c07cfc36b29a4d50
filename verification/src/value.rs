//! Values of the language: numbers, lists of numbers, callables, and the
//! self-naming placeholder an unbound identifier turns into. Arithmetic is
//! defined only between two numbers; anything else is a type error.
use vstd::prelude::*;

use crate::callable::{callable_name, callable_view, Callable, CallableM};
use crate::error::Error;
use crate::num::{add_bits, dec_of, div_bits, mul_bits, neg_bits, pow_bits, sub_bits, Num};
use crate::token::TokenKind;

verus! {

/// One value.
#[derive(Debug)]
pub enum Value {
    /// A placeholder for an identifier with no binding; it names itself.
    Unbound(String),
    Number(Num),
    List(Vec<Num>),
    Function(Callable),
}

/// The model of a value.
pub ghost enum ValueM {
    Unbound(Seq<char>),
    Number(Num),
    List(Seq<Num>),
    Function(CallableM),
}

/// The model of a value.
pub open spec fn value_view(v: Value) -> ValueM {
    match v {
        Value::Unbound(s) => ValueM::Unbound(s@),
        Value::Number(n) => ValueM::Number(n),
        Value::List(ns) => ValueM::List(ns@),
        Value::Function(c) => ValueM::Function(callable_view(c)),
    }
}

/// The models of a sequence of values, element by element.
pub open spec fn values_view(vs: Seq<Value>) -> Seq<ValueM> {
    Seq::new(vs.len(), |i: int| value_view(vs[i]))
}

/// What a binary arithmetic operator yields: binary64 arithmetic when both
/// operands are numbers, a type error otherwise (and for any token kind that
/// is not an arithmetic operator).
pub open spec fn spec_binop(op: TokenKind, a: ValueM, b: ValueM) -> Result<ValueM, Error> {
    match (a, b) {
        (ValueM::Number(x), ValueM::Number(y)) => match op {
            TokenKind::Plus => Ok(ValueM::Number(Num { bits: add_bits(x.bits, y.bits) })),
            TokenKind::Minus => Ok(ValueM::Number(Num { bits: sub_bits(x.bits, y.bits) })),
            TokenKind::Star => Ok(ValueM::Number(Num { bits: mul_bits(x.bits, y.bits) })),
            TokenKind::Slash => Ok(ValueM::Number(Num { bits: div_bits(x.bits, y.bits) })),
            TokenKind::Caret => Ok(ValueM::Number(Num { bits: pow_bits(x.bits, y.bits) })),
            _ => Err(Error::TypeError),
        },
        _ => Err(Error::TypeError),
    }
}

/// What unary negation yields: the number with its sign flipped, or a type
/// error on anything that is not a number.
pub open spec fn spec_neg(a: ValueM) -> Result<ValueM, Error> {
    match a {
        ValueM::Number(x) => Ok(ValueM::Number(Num { bits: neg_bits(x.bits) })),
        _ => Err(Error::TypeError),
    }
}

/// The rendered list items, separated by a comma and a space: the first `k`
/// of them.
pub open spec fn render_items(ns: Seq<Num>, k: int) -> Seq<char>
    decreases k,
{
    if k <= 0 {
        Seq::empty()
    } else if k == 1 {
        dec_of(ns[0].bits)
    } else {
        render_items(ns, k - 1) + seq![',', ' '] + dec_of(ns[k - 1].bits)
    }
}

/// The textual rendering of a value: a number renders as its decimal
/// numeral, an unbound placeholder as its own name, a list as its items in
/// brackets, and a callable as its name between `<fnc:` and `>`.
pub open spec fn render_value(v: ValueM) -> Seq<char> {
    match v {
        ValueM::Unbound(s) => s,
        ValueM::Number(n) => dec_of(n.bits),
        ValueM::List(ns) => seq!['['] + render_items(ns, ns.len() as int) + seq![']'],
        ValueM::Function(c) => seq!['<', 'f', 'n', 'c', ':'] + callable_name(c) + seq!['>'],
    }
}

impl Value {
    /// Binary arithmetic between two values.
    pub fn binop(self, op: TokenKind, other: Value) -> (r: Result<Value, Error>)
        ensures
            match r {
                Ok(v) => spec_binop(op, value_view(self), value_view(other)) == Ok::<
                    ValueM,
                    Error,
                >(value_view(v)),
                Err(e) => spec_binop(op, value_view(self), value_view(other)) == Err::<
                    ValueM,
                    Error,
                >(e),
            },
    {
        match (self, other) {
            (Value::Number(x), Value::Number(y)) => match op {
                TokenKind::Plus => Ok(Value::Number(x.add(y))),
                TokenKind::Minus => Ok(Value::Number(x.sub(y))),
                TokenKind::Star => Ok(Value::Number(x.mul(y))),
                TokenKind::Slash => Ok(Value::Number(x.div(y))),
                TokenKind::Caret => Ok(Value::Number(x.powf(y))),
                _ => Err(Error::TypeError),
            },
            _ => Err(Error::TypeError),
        }
    }

    /// Exponentiation between two values.
    pub fn powf(self, other: Value) -> (r: Result<Value, Error>)
        ensures
            match r {
                Ok(v) => spec_binop(TokenKind::Caret, value_view(self), value_view(other)) == Ok::<
                    ValueM,
                    Error,
                >(value_view(v)),
                Err(e) => spec_binop(TokenKind::Caret, value_view(self), value_view(other))
                    == Err::<ValueM, Error>(e),
            },
    {
        self.binop(TokenKind::Caret, other)
    }

    /// Unary negation of a value.
    pub fn neg(self) -> (r: Result<Value, Error>)
        ensures
            match r {
                Ok(v) => spec_neg(value_view(self)) == Ok::<ValueM, Error>(value_view(v)),
                Err(e) => spec_neg(value_view(self)) == Err::<ValueM, Error>(e),
            },
    {
        match self {
            Value::Number(x) => Ok(Value::Number(x.neg())),
            _ => Err(Error::TypeError),
        }
    }

    /// The textual rendering of the value.
    pub fn render(&self) -> (r: String)
        ensures
            r@ == render_value(value_view(*self)),
    {
        match self {
            Value::Unbound(s) => s.clone(),
            Value::Number(n) => n.render(),
            Value::List(ns) => {
                let mut out = String::from_str("[");
                proof {
                    reveal_strlit("[");
                    assert(out@ =~= seq!['[']);
                }
                let mut k: usize = 0;
                while k < ns.len()
                    invariant
                        k <= ns.len(),
                        out@ == seq!['['] + render_items(ns@, k as int),
                    decreases ns.len() - k,
                {
                    if k > 0 {
                        let sep = String::from_str(", ");
                        proof {
                            reveal_strlit(", ");
                            assert(sep@ =~= seq![',', ' ']);
                        }
                        out.append(sep.as_str());
                    }
                    let item = ns[k].render();
                    out.append(item.as_str());
                    k = k + 1;
                }
                let close = String::from_str("]");
                proof {
                    reveal_strlit("]");
                    assert(close@ =~= seq![']']);
                }
                out.append(close.as_str());
                out
            },
            Value::Function(c) => {
                let mut out = String::from_str("<fnc:");
                proof {
                    reveal_strlit("<fnc:");
                    assert(out@ =~= seq!['<', 'f', 'n', 'c', ':']);
                }
                let name = match c {
                    Callable::Pi(_) => String::from_str("pi"),
                    Callable::Sin(_) => String::from_str("sin"),
                    Callable::Factors(_) => String::from_str("factors"),
                    Callable::Plot(_) => String::from_str("plot"),
                    Callable::Function(f) => f.declaration.name.lexeme.clone(),
                };
                proof {
                    reveal_strlit("pi");
                    reveal_strlit("sin");
                    reveal_strlit("factors");
                    reveal_strlit("plot");
                    assert(name@ == callable_name(callable_view(*c)));
                }
                out.append(name.as_str());
                let close = String::from_str(">");
                proof {
                    reveal_strlit(">");
                    assert(close@ =~= seq!['>']);
                }
                out.append(close.as_str());
                out
            },
        }
    }
}

impl Clone for Value {
    /// A clone has the same model as the original.
    fn clone(&self) -> (r: Value)
        ensures
            value_view(r) == value_view(*self),
    {
        match self {
            Value::Unbound(s) => Value::Unbound(s.clone()),
            Value::Number(n) => Value::Number(*n),
            Value::List(ns) => {
                let mut out: Vec<Num> = Vec::new();
                let mut k: usize = 0;
                while k < ns.len()
                    invariant
                        k <= ns.len(),
                        out@ == ns@.subrange(0, k as int),
                    decreases ns.len() - k,
                {
                    out.push(ns[k]);
                    proof {
                        assert(out@ =~= ns@.subrange(0, k + 1 as int));
                    }
                    k = k + 1;
                }
                proof {
                    assert(ns@.subrange(0, ns@.len() as int) =~= ns@);
                }
                Value::List(out)
            },
            Value::Function(c) => Value::Function(c.clone()),
        }
    }
}

} // verus!
