//! Expression trees and their mathematical models.
use vstd::prelude::*;

use crate::num::Num;
use crate::token::{LiteralKind, Token, TokenKind};

verus! {

broadcast use
    vstd::seq::axiom_seq_index_decreases,
    vstd::std_specs::vec::axiom_vec_index_decreases,
    vstd::std_specs::vec::axiom_vec_decreases_to_view;

/// An expression node; the tree is immutable once parsed.
#[derive(Debug)]
pub enum Expr {
    Binary { left: Box<Expr>, op: Token, right: Box<Expr> },
    Grouping(Box<Expr>),
    Literal(LiteralKind),
    Variable(Token),
    Unary { op: Token, right: Box<Expr> },
    Call { callee: Box<Expr>, args: Vec<Expr> },
}

/// The model of an expression: operators are reduced to their kind and
/// identifiers to their name.
pub ghost enum ExprM {
    Binary { left: Box<ExprM>, op: TokenKind, right: Box<ExprM> },
    Grouping(Box<ExprM>),
    Literal(Num),
    Variable(Seq<char>),
    Unary { op: TokenKind, right: Box<ExprM> },
    Call { callee: Box<ExprM>, args: Seq<ExprM> },
}

/// The model of an expression tree.
pub open spec fn expr_view(e: Expr) -> ExprM
    decreases e,
{
    match e {
        Expr::Binary { left, op, right } => ExprM::Binary {
            left: Box::new(expr_view(*left)),
            op: op.kind,
            right: Box::new(expr_view(*right)),
        },
        Expr::Grouping(inner) => ExprM::Grouping(Box::new(expr_view(*inner))),
        Expr::Literal(LiteralKind::Number(n)) => ExprM::Literal(n),
        Expr::Variable(t) => ExprM::Variable(t.lexeme@),
        Expr::Unary { op, right } => ExprM::Unary {
            op: op.kind,
            right: Box::new(expr_view(*right)),
        },
        Expr::Call { callee, args } => ExprM::Call {
            callee: Box::new(expr_view(*callee)),
            args: exprs_view(args@),
        },
    }
}

/// The models of a sequence of expressions, element by element. The bounds
/// test inside the closure only serves the termination check; `Seq::new`
/// never applies the closure out of range.
pub open spec fn exprs_view(es: Seq<Expr>) -> Seq<ExprM>
    decreases es,
{
    Seq::new(
        es.len(),
        |i: int|
            if 0 <= i < es.len() {
                expr_view(es[i])
            } else {
                vstd::pervasive::arbitrary()
            },
    )
}

impl Clone for Expr {
    /// A clone has the same model as the original.
    fn clone(&self) -> (r: Expr)
        ensures
            expr_view(r) == expr_view(*self),
        decreases self,
    {
        match self {
            Expr::Binary { left, op, right } => Expr::Binary {
                left: Box::new((&**left).clone()),
                op: op.clone(),
                right: Box::new((&**right).clone()),
            },
            Expr::Grouping(inner) => Expr::Grouping(Box::new((&**inner).clone())),
            Expr::Literal(l) => Expr::Literal(*l),
            Expr::Variable(t) => Expr::Variable(t.clone()),
            Expr::Unary { op, right } => Expr::Unary {
                op: op.clone(),
                right: Box::new((&**right).clone()),
            },
            Expr::Call { callee, args } => {
                let mut cargs: Vec<Expr> = Vec::new();
                let mut k: usize = 0;
                while k < args.len()
                    invariant
                        self is Call,
                        self->Call_args == *args,
                        k <= args.len(),
                        cargs@.len() == k,
                        forall|i: int|
                            0 <= i < k ==> expr_view(cargs@[i]) == expr_view(args@[i]),
                    decreases args.len() - k,
                {
                    proof {
                        assert(decreases_to!(*self => self->Call_args));
                        assert(decreases_to!(*args => args@));
                        assert(decreases_to!(args@ => args@[k as int]));
                    }
                    cargs.push(args[k].clone());
                    k = k + 1;
                }
                let r = Expr::Call { callee: Box::new((&**callee).clone()), args: cargs };
                proof {
                    assert(exprs_view(cargs@) =~= exprs_view(args@));
                }
                r
            },
        }
    }
}

} // verus!
