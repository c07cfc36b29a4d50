//! Statement trees and their mathematical models.
use vstd::prelude::*;

use crate::expr::{expr_view, Expr, ExprM};
use crate::token::Token;

verus! {

/// A variable declaration: a name and the expression whose value it takes.
#[derive(Debug)]
pub struct Variable {
    pub name: Token,
    pub initializer: Expr,
}

/// A function declaration: a name, ordered parameter names, and a body that
/// stays unevaluated until the function is called.
#[derive(Debug)]
pub struct Fnc {
    pub name: Token,
    pub params: Vec<Token>,
    pub body: Expr,
}

/// One statement.
#[derive(Debug)]
pub enum Stmt {
    Print(Expr),
    Expression(Expr),
    Function(Fnc),
    Variable { name: Token, initializer: Expr },
}

/// The model of a function declaration.
pub ghost struct FncM {
    pub name: Seq<char>,
    pub params: Seq<Seq<char>>,
    pub body: ExprM,
}

/// The model of a statement.
pub ghost enum StmtM {
    Print(ExprM),
    Expression(ExprM),
    Function(FncM),
    Variable { name: Seq<char>, initializer: ExprM },
}

/// The model of a function declaration: the names and the body's model.
pub open spec fn fnc_view(f: Fnc) -> FncM {
    FncM {
        name: f.name.lexeme@,
        params: Seq::new(f.params@.len(), |i: int| f.params@[i].lexeme@),
        body: expr_view(f.body),
    }
}

/// The model of a statement tree.
pub open spec fn stmt_view(s: Stmt) -> StmtM {
    match s {
        Stmt::Print(e) => StmtM::Print(expr_view(e)),
        Stmt::Expression(e) => StmtM::Expression(expr_view(e)),
        Stmt::Function(f) => StmtM::Function(fnc_view(f)),
        Stmt::Variable { name, initializer } => StmtM::Variable {
            name: name.lexeme@,
            initializer: expr_view(initializer),
        },
    }
}

/// The models of a sequence of statements, element by element.
pub open spec fn stmts_view(ss: Seq<Stmt>) -> Seq<StmtM> {
    Seq::new(ss.len(), |i: int| stmt_view(ss[i]))
}

impl Clone for Fnc {
    /// A clone has the same model as the original.
    fn clone(&self) -> (r: Fnc)
        ensures
            fnc_view(r) == fnc_view(*self),
    {
        let mut params: Vec<Token> = Vec::new();
        let mut k: usize = 0;
        while k < self.params.len()
            invariant
                k <= self.params.len(),
                params@.len() == k,
                forall|i: int| 0 <= i < k ==> params@[i]@ == self.params@[i]@,
            decreases self.params.len() - k,
        {
            params.push(self.params[k].clone());
            k = k + 1;
        }
        let r = Fnc { name: self.name.clone(), params, body: self.body.clone() };
        proof {
            assert(fnc_view(r).params =~= fnc_view(*self).params);
        }
        r
    }
}

} // verus!
