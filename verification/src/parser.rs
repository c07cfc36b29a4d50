//! The parser: recursive descent over the token sequence with a fixed
//! precedence ladder. The `spec_*` functions are the grammar itself, written
//! as functions from a position to the parsed tree and the next position;
//! the `Parser` methods compute them. Every malformed construct is fatal for
//! the whole parse: there is no recovery.
//!
//! Grammar, loosest to tightest:
//! ```text
//! program      := declaration* EOF
//! declaration  := statement ("=" expression)?
//! statement    := "print" expression | expression
//! expression   := term
//! term         := factor (("+"|"-") factor)*
//! factor       := power (("*"|"/") power)*
//! power        := unary ("^" primary)*
//! unary        := "-" unary | call
//! call         := primary ( "(" (expression ("," expression)*)? ")" )*
//! primary      := NUMBER | IDENTIFIER | "(" expression ")"
//! ```
use vstd::prelude::*;

use crate::error::Error;
use crate::expr::{expr_view, exprs_view, Expr, ExprM};
use crate::stmt::{stmt_view, stmts_view, Fnc, FncM, Stmt, StmtM};
use crate::token::{tokens_view, LiteralKind, Token, TokenKind, TokenM};

verus! {

/// Clamps a target position so that it strictly advances where the grammar
/// has consumed at least one token and never leaves the token sequence; the
/// parser only reaches it with positions that already behave, so this is a
/// termination guard, not a semantic device.
pub open spec fn adv_t(t: Seq<TokenM>, i: int, j: int) -> int {
    let a = if j <= i {
        i + 1
    } else {
        j
    };
    if a > t.len() {
        t.len() as int
    } else {
        a
    }
}

/// `primary := NUMBER | IDENTIFIER | "(" expression ")"`.
pub open spec fn spec_primary(t: Seq<TokenM>, i: int) -> Option<(ExprM, int)>
    decreases t.len() - i, 3int when 0 <= i <= t.len()
{
    if i >= t.len() {
        None
    } else if t[i].kind == TokenKind::Number {
        match t[i].literal {
            Some(LiteralKind::Number(n)) => Some((ExprM::Literal(n), i + 1)),
            None => None,
        }
    } else if t[i].kind == TokenKind::Identifier {
        Some((ExprM::Variable(t[i].lexeme), i + 1))
    } else if t[i].kind == TokenKind::LeftParen {
        match spec_expression(t, i + 1) {
            None => None,
            Some((e, j)) => {
                let ja = adv_t(t, i + 1, j);
                if ja < t.len() && t[ja].kind == TokenKind::RightParen {
                    Some((ExprM::Grouping(Box::new(e)), ja + 1))
                } else {
                    None
                }
            },
        }
    } else {
        None
    }
}

/// The comma-separated argument expressions of a call.
pub open spec fn spec_call_args(t: Seq<TokenM>, i: int) -> Option<(Seq<ExprM>, int)>
    decreases t.len() - i, 12int when 0 <= i <= t.len()
{
    match spec_expression(t, i) {
        None => None,
        Some((e, j)) => {
            let ja = adv_t(t, i, j);
            if ja < t.len() && t[ja].kind == TokenKind::Comma {
                match spec_call_args(t, ja + 1) {
                    None => None,
                    Some((rest, k)) => Some((seq![e] + rest, k)),
                }
            } else {
                Some((seq![e], ja))
            }
        },
    }
}

/// Zero or more parenthesized argument groups after a parsed callee. A group
/// after a bare number literal with exactly one argument is implicit
/// multiplication; with any other argument count it is a parse error. Any
/// other parenthesized group is a call.
pub open spec fn spec_call_rest(t: Seq<TokenM>, i: int, acc: ExprM) -> Option<(ExprM, int)>
    decreases t.len() - i, 4int when 0 <= i <= t.len()
{
    if i < t.len() && t[i].kind == TokenKind::LeftParen {
        let argsres = if i + 1 < t.len() && t[i + 1].kind == TokenKind::RightParen {
            Some((Seq::<ExprM>::empty(), i + 1))
        } else {
            spec_call_args(t, i + 1)
        };
        match argsres {
            None => None,
            Some((args, j)) => {
                let ja = adv_t(t, i, j);
                if ja < t.len() && t[ja].kind == TokenKind::RightParen {
                    match acc {
                        ExprM::Literal(n) => if args.len() == 1 {
                            spec_call_rest(
                                t,
                                ja + 1,
                                ExprM::Binary {
                                    left: Box::new(ExprM::Literal(n)),
                                    op: TokenKind::Star,
                                    right: Box::new(args[0]),
                                },
                            )
                        } else {
                            None
                        },
                        _ => spec_call_rest(
                            t,
                            ja + 1,
                            ExprM::Call { callee: Box::new(acc), args },
                        ),
                    }
                } else {
                    None
                }
            },
        }
    } else {
        Some((acc, i))
    }
}

/// `call := primary ( "(" ... ")" )*`.
pub open spec fn spec_call(t: Seq<TokenM>, i: int) -> Option<(ExprM, int)>
    decreases t.len() - i, 5int when 0 <= i <= t.len()
{
    match spec_primary(t, i) {
        None => None,
        Some((e, j)) => spec_call_rest(t, adv_t(t, i, j), e),
    }
}

/// `unary := "-" unary | call`.
pub open spec fn spec_unary(t: Seq<TokenM>, i: int) -> Option<(ExprM, int)>
    decreases t.len() - i, 6int when 0 <= i <= t.len()
{
    if i < t.len() && t[i].kind == TokenKind::Minus {
        match spec_unary(t, i + 1) {
            None => None,
            Some((e, j)) => Some((
                ExprM::Unary { op: TokenKind::Minus, right: Box::new(e) },
                j,
            )),
        }
    } else {
        spec_call(t, i)
    }
}

/// The left-associative `^` chain: the right operand of each `^` is a
/// primary, so `2^3^2` is `(2^3)^2`.
pub open spec fn spec_power_rest(t: Seq<TokenM>, i: int, acc: ExprM) -> Option<(ExprM, int)>
    decreases t.len() - i, 2int when 0 <= i <= t.len()
{
    if i < t.len() && t[i].kind == TokenKind::Caret {
        match spec_primary(t, i + 1) {
            None => None,
            Some((r, j)) => spec_power_rest(
                t,
                adv_t(t, i + 1, j),
                ExprM::Binary { left: Box::new(acc), op: TokenKind::Caret, right: Box::new(r) },
            ),
        }
    } else {
        Some((acc, i))
    }
}

/// `power := unary ("^" primary)*`.
pub open spec fn spec_power(t: Seq<TokenM>, i: int) -> Option<(ExprM, int)>
    decreases t.len() - i, 7int when 0 <= i <= t.len()
{
    match spec_unary(t, i) {
        None => None,
        Some((e, j)) => spec_power_rest(t, adv_t(t, i, j), e),
    }
}

/// The left-associative `*` and `/` chain.
pub open spec fn spec_factor_rest(t: Seq<TokenM>, i: int, acc: ExprM) -> Option<(ExprM, int)>
    decreases t.len() - i, 2int when 0 <= i <= t.len()
{
    if i < t.len() && (t[i].kind == TokenKind::Star || t[i].kind == TokenKind::Slash) {
        match spec_power(t, i + 1) {
            None => None,
            Some((r, j)) => spec_factor_rest(
                t,
                adv_t(t, i + 1, j),
                ExprM::Binary { left: Box::new(acc), op: t[i].kind, right: Box::new(r) },
            ),
        }
    } else {
        Some((acc, i))
    }
}

/// `factor := power (("*"|"/") power)*`.
pub open spec fn spec_factor(t: Seq<TokenM>, i: int) -> Option<(ExprM, int)>
    decreases t.len() - i, 8int when 0 <= i <= t.len()
{
    match spec_power(t, i) {
        None => None,
        Some((e, j)) => spec_factor_rest(t, adv_t(t, i, j), e),
    }
}

/// The left-associative `+` and `-` chain.
pub open spec fn spec_term_rest(t: Seq<TokenM>, i: int, acc: ExprM) -> Option<(ExprM, int)>
    decreases t.len() - i, 2int when 0 <= i <= t.len()
{
    if i < t.len() && (t[i].kind == TokenKind::Plus || t[i].kind == TokenKind::Minus) {
        match spec_factor(t, i + 1) {
            None => None,
            Some((r, j)) => spec_term_rest(
                t,
                adv_t(t, i + 1, j),
                ExprM::Binary { left: Box::new(acc), op: t[i].kind, right: Box::new(r) },
            ),
        }
    } else {
        Some((acc, i))
    }
}

/// `term := factor (("+"|"-") factor)*`.
pub open spec fn spec_term(t: Seq<TokenM>, i: int) -> Option<(ExprM, int)>
    decreases t.len() - i, 9int when 0 <= i <= t.len()
{
    match spec_factor(t, i) {
        None => None,
        Some((e, j)) => spec_term_rest(t, adv_t(t, i, j), e),
    }
}

/// `expression := term`.
pub open spec fn spec_expression(t: Seq<TokenM>, i: int) -> Option<(ExprM, int)>
    decreases t.len() - i, 10int when 0 <= i <= t.len()
{
    spec_term(t, i)
}

/// `statement := "print" expression | expression`.
pub open spec fn spec_statement(t: Seq<TokenM>, i: int) -> Option<(StmtM, int)>
    decreases t.len() - i, 13int when 0 <= i <= t.len()
{
    if i < t.len() && t[i].kind == TokenKind::Print {
        match spec_expression(t, i + 1) {
            None => None,
            Some((e, j)) => Some((StmtM::Print(e), j)),
        }
    } else {
        match spec_expression(t, i) {
            None => None,
            Some((e, j)) => Some((StmtM::Expression(e), j)),
        }
    }
}

/// Whether every argument is a bare variable reference.
pub open spec fn all_variables(args: Seq<ExprM>) -> bool {
    forall|i: int| 0 <= i < args.len() ==> args[i] is Variable
}

/// The name of a bare variable reference.
pub open spec fn var_name(e: ExprM) -> Seq<char> {
    match e {
        ExprM::Variable(n) => n,
        _ => Seq::empty(),
    }
}

/// The parameter names of a function declaration's argument list.
pub open spec fn param_names(args: Seq<ExprM>) -> Seq<Seq<char>> {
    Seq::new(args.len(), |i: int| var_name(args[i]))
}

/// How a statement followed by `=` is reinterpreted: a bare variable becomes
/// a variable declaration; a call of a bare variable on bare variables
/// becomes a function declaration; any other shape is unsupported.
pub open spec fn reshape_decl(stm: StmtM, init: ExprM) -> Option<StmtM> {
    match stm {
        StmtM::Expression(e) => match e {
            ExprM::Variable(name) => Some(StmtM::Variable { name, initializer: init }),
            ExprM::Call { callee, args } => match *callee {
                ExprM::Variable(fname) => if all_variables(args) {
                    Some(
                        StmtM::Function(
                            FncM { name: fname, params: param_names(args), body: init },
                        ),
                    )
                } else {
                    None
                },
                _ => None,
            },
            _ => None,
        },
        _ => None,
    }
}

/// `declaration := statement ("=" expression)?`.
pub open spec fn spec_declaration(t: Seq<TokenM>, i: int) -> Option<(StmtM, int)>
    decreases t.len() - i, 14int when 0 <= i <= t.len()
{
    match spec_statement(t, i) {
        None => None,
        Some((stm, j)) => {
            let ja = adv_t(t, i, j);
            if ja < t.len() && t[ja].kind == TokenKind::Equal {
                match spec_expression(t, ja + 1) {
                    None => None,
                    Some((init, k)) => match reshape_decl(stm, init) {
                        None => None,
                        Some(d) => Some((d, k)),
                    },
                }
            } else {
                Some((stm, ja))
            }
        },
    }
}

/// `program := declaration* EOF`.
pub open spec fn spec_program(t: Seq<TokenM>, i: int) -> Option<Seq<StmtM>>
    decreases t.len() - i, 15int when 0 <= i <= t.len()
{
    if i >= t.len() || t[i].kind == TokenKind::Eof {
        Some(Seq::empty())
    } else {
        match spec_declaration(t, i) {
            None => None,
            Some((stm, j)) => match spec_program(t, adv_t(t, i, j)) {
                None => None,
                Some(rest) => Some(seq![stm] + rest),
            },
        }
    }
}

/// The statement list a token sequence parses to, or `None` when the parse
/// fails.
pub open spec fn spec_parse(t: Seq<TokenM>) -> Option<Seq<StmtM>> {
    spec_program(t, 0)
}

/// Appends a finished prefix of statements in front of a parse result.
pub open spec fn glue_stmts(done: Seq<StmtM>, rest: Option<Seq<StmtM>>) -> Option<Seq<StmtM>> {
    match rest {
        Some(r) => Some(done + r),
        None => None,
    }
}

/// The parser over one token sequence.
pub struct Parser {
    tokens: Vec<Token>,
    current: usize,
}

impl Parser {
    /// The models of the tokens being parsed.
    pub closed spec fn toks(&self) -> Seq<TokenM> {
        tokens_view(self.tokens@)
    }

    /// The position of the next token to consume.
    pub closed spec fn pos(&self) -> int {
        self.current as int
    }

    /// The position never leaves the token sequence.
    pub closed spec fn inv(&self) -> bool {
        self.current <= self.tokens@.len()
    }

    pub fn new(tokens: Vec<Token>) -> (p: Parser)
        ensures
            p.inv(),
            p.toks() == tokens_view(tokens@),
            p.pos() == 0,
    {
        Parser { tokens, current: 0 }
    }

    fn primary(&mut self) -> (r: Result<Expr, Error>)
        requires
            old(self).inv(),
        ensures
            final(self).inv(),
            final(self).toks() == old(self).toks(),
            match r {
                Ok(e) => spec_primary(old(self).toks(), old(self).pos()) == Some(
                    (expr_view(e), final(self).pos()),
                ) && old(self).pos() < final(self).pos(),
                Err(er) => spec_primary(old(self).toks(), old(self).pos()) is None && er
                    == Error::ParseError,
            },
        decreases self.tokens@.len() - self.current, 3int,
    {
        let ghost t = self.toks();
        let ghost i = self.pos();
        let n = self.tokens.len();
        if self.current < n && self.tokens[self.current].kind == TokenKind::Number {
            match self.tokens[self.current].literal {
                Some(LiteralKind::Number(num)) => {
                    self.current = self.current + 1;
                    Ok(Expr::Literal(LiteralKind::Number(num)))
                },
                None => Err(Error::ParseError),
            }
        } else if self.current < n && self.tokens[self.current].kind == TokenKind::Identifier {
            let tok = self.tokens[self.current].clone();
            self.current = self.current + 1;
            Ok(Expr::Variable(tok))
        } else if self.current < n && self.tokens[self.current].kind == TokenKind::LeftParen {
            self.current = self.current + 1;
            match self.expression() {
                Err(er) => Err(er),
                Ok(e) => {
                    proof {
                        assert(adv_t(t, i + 1, self.pos()) == self.pos());
                    }
                    if self.current < n && self.tokens[self.current].kind
                        == TokenKind::RightParen {
                        self.current = self.current + 1;
                        Ok(Expr::Grouping(Box::new(e)))
                    } else {
                        Err(Error::ParseError)
                    }
                },
            }
        } else {
            Err(Error::ParseError)
        }
    }

    /// The comma-separated argument list of one call group.
    fn call_args(&mut self) -> (r: Result<Vec<Expr>, Error>)
        requires
            old(self).inv(),
        ensures
            final(self).inv(),
            final(self).toks() == old(self).toks(),
            match r {
                Ok(es) => spec_call_args(old(self).toks(), old(self).pos()) == Some(
                    (exprs_view(es@), final(self).pos()),
                ) && old(self).pos() < final(self).pos(),
                Err(er) => spec_call_args(old(self).toks(), old(self).pos()) is None && er
                    == Error::ParseError,
            },
        decreases self.tokens@.len() - self.current, 12int,
    {
        let ghost t = self.toks();
        let ghost i = self.pos();
        match self.expression() {
            Err(er) => Err(er),
            Ok(e) => {
                proof {
                    assert(adv_t(t, i, self.pos()) == self.pos());
                }
                if self.current < self.tokens.len() && self.tokens[self.current].kind
                    == TokenKind::Comma {
                    self.current = self.current + 1;
                    match self.call_args() {
                        Err(er) => Err(er),
                        Ok(mut rest) => {
                            let ghost restm = exprs_view(rest@);
                            rest.insert(0, e);
                            proof {
                                assert(exprs_view(rest@) =~= seq![expr_view(e)] + restm);
                            }
                            Ok(rest)
                        },
                    }
                } else {
                    let mut es: Vec<Expr> = Vec::new();
                    es.push(e);
                    proof {
                        assert(exprs_view(es@) =~= seq![expr_view(e)]);
                    }
                    Ok(es)
                }
            },
        }
    }

    #[verifier::loop_isolation(false)]
    fn call(&mut self) -> (r: Result<Expr, Error>)
        requires
            old(self).inv(),
        ensures
            final(self).inv(),
            final(self).toks() == old(self).toks(),
            match r {
                Ok(e) => spec_call(old(self).toks(), old(self).pos()) == Some(
                    (expr_view(e), final(self).pos()),
                ) && old(self).pos() < final(self).pos(),
                Err(er) => spec_call(old(self).toks(), old(self).pos()) is None && er
                    == Error::ParseError,
            },
        decreases self.tokens@.len() - self.current, 5int,
    {
        let ghost t = self.toks();
        let ghost i = self.pos();
        let mut e = match self.primary() {
            Err(er) => {
                return Err(er);
            },
            Ok(x) => x,
        };
        proof {
            assert(adv_t(t, i, self.pos()) == self.pos());
        }
        while self.current < self.tokens.len() && self.tokens[self.current].kind
            == TokenKind::LeftParen
            invariant
                self.inv(),
                self.toks() == t,
                i < self.pos(),
                spec_call(t, i) == spec_call_rest(t, self.pos(), expr_view(e)),
            decreases self.tokens@.len() - self.current,
        {
            let ghost p = self.pos();
            self.current = self.current + 1;
            let mut args: Vec<Expr> = Vec::new();
            let ghost argsres: Option<(Seq<ExprM>, int)>;
            if self.current < self.tokens.len() && self.tokens[self.current].kind
                == TokenKind::RightParen {
                proof {
                    argsres = Some((Seq::<ExprM>::empty(), p + 1));
                    assert(exprs_view(args@) =~= Seq::<ExprM>::empty());
                }
            } else {
                match self.call_args() {
                    Err(er) => {
                        return Err(er);
                    },
                    Ok(es) => {
                        args = es;
                    },
                }
                proof {
                    argsres = Some((exprs_view(args@), self.pos()));
                }
            }
            proof {
                assert(argsres == Some((exprs_view(args@), self.pos())) || argsres == Some(
                    (exprs_view(args@), p + 1),
                ));
                assert(adv_t(t, p, argsres->Some_0.1) == argsres->Some_0.1);
            }
            if self.current < self.tokens.len() && self.tokens[self.current].kind
                == TokenKind::RightParen {
                self.current = self.current + 1;
            } else {
                return Err(Error::ParseError);
            }
            let is_literal = match &e {
                Expr::Literal(_) => true,
                _ => false,
            };
            if is_literal {
                if args.len() == 1 {
                    let arg0 = args[0].clone();
                    e = Expr::Binary {
                        left: Box::new(e),
                        op: Token::star(),
                        right: Box::new(arg0),
                    };
                } else {
                    return Err(Error::ParseError);
                }
            } else {
                e = Expr::Call { callee: Box::new(e), args };
            }
        }
        Ok(e)
    }

    fn unary(&mut self) -> (r: Result<Expr, Error>)
        requires
            old(self).inv(),
        ensures
            final(self).inv(),
            final(self).toks() == old(self).toks(),
            match r {
                Ok(e) => spec_unary(old(self).toks(), old(self).pos()) == Some(
                    (expr_view(e), final(self).pos()),
                ) && old(self).pos() < final(self).pos(),
                Err(er) => spec_unary(old(self).toks(), old(self).pos()) is None && er
                    == Error::ParseError,
            },
        decreases self.tokens@.len() - self.current, 6int,
    {
        if self.current < self.tokens.len() && self.tokens[self.current].kind
            == TokenKind::Minus {
            let op = self.tokens[self.current].clone();
            self.current = self.current + 1;
            match self.unary() {
                Err(er) => Err(er),
                Ok(e) => Ok(Expr::Unary { op, right: Box::new(e) }),
            }
        } else {
            self.call()
        }
    }

    #[verifier::loop_isolation(false)]
    fn power(&mut self) -> (r: Result<Expr, Error>)
        requires
            old(self).inv(),
        ensures
            final(self).inv(),
            final(self).toks() == old(self).toks(),
            match r {
                Ok(e) => spec_power(old(self).toks(), old(self).pos()) == Some(
                    (expr_view(e), final(self).pos()),
                ) && old(self).pos() < final(self).pos(),
                Err(er) => spec_power(old(self).toks(), old(self).pos()) is None && er
                    == Error::ParseError,
            },
        decreases self.tokens@.len() - self.current, 7int,
    {
        let ghost t = self.toks();
        let ghost i = self.pos();
        let mut e = match self.unary() {
            Err(er) => {
                return Err(er);
            },
            Ok(x) => x,
        };
        proof {
            assert(adv_t(t, i, self.pos()) == self.pos());
        }
        while self.current < self.tokens.len() && self.tokens[self.current].kind
            == TokenKind::Caret
            invariant
                self.inv(),
                self.toks() == t,
                i < self.pos(),
                spec_power(t, i) == spec_power_rest(t, self.pos(), expr_view(e)),
            decreases self.tokens@.len() - self.current,
        {
            let op = self.tokens[self.current].clone();
            self.current = self.current + 1;
            let ghost p = self.pos();
            match self.primary() {
                Err(er) => {
                    return Err(er);
                },
                Ok(right) => {
                    proof {
                        assert(adv_t(t, p, self.pos()) == self.pos());
                    }
                    e = Expr::Binary { left: Box::new(e), op, right: Box::new(right) };
                },
            }
        }
        Ok(e)
    }

    #[verifier::loop_isolation(false)]
    fn factor(&mut self) -> (r: Result<Expr, Error>)
        requires
            old(self).inv(),
        ensures
            final(self).inv(),
            final(self).toks() == old(self).toks(),
            match r {
                Ok(e) => spec_factor(old(self).toks(), old(self).pos()) == Some(
                    (expr_view(e), final(self).pos()),
                ) && old(self).pos() < final(self).pos(),
                Err(er) => spec_factor(old(self).toks(), old(self).pos()) is None && er
                    == Error::ParseError,
            },
        decreases self.tokens@.len() - self.current, 8int,
    {
        let ghost t = self.toks();
        let ghost i = self.pos();
        let mut e = match self.power() {
            Err(er) => {
                return Err(er);
            },
            Ok(x) => x,
        };
        proof {
            assert(adv_t(t, i, self.pos()) == self.pos());
        }
        while self.current < self.tokens.len() && (self.tokens[self.current].kind
            == TokenKind::Star || self.tokens[self.current].kind == TokenKind::Slash)
            invariant
                self.inv(),
                self.toks() == t,
                i < self.pos(),
                spec_factor(t, i) == spec_factor_rest(t, self.pos(), expr_view(e)),
            decreases self.tokens@.len() - self.current,
        {
            let op = self.tokens[self.current].clone();
            self.current = self.current + 1;
            let ghost p = self.pos();
            match self.power() {
                Err(er) => {
                    return Err(er);
                },
                Ok(right) => {
                    proof {
                        assert(adv_t(t, p, self.pos()) == self.pos());
                    }
                    e = Expr::Binary { left: Box::new(e), op, right: Box::new(right) };
                },
            }
        }
        Ok(e)
    }

    #[verifier::loop_isolation(false)]
    fn term(&mut self) -> (r: Result<Expr, Error>)
        requires
            old(self).inv(),
        ensures
            final(self).inv(),
            final(self).toks() == old(self).toks(),
            match r {
                Ok(e) => spec_term(old(self).toks(), old(self).pos()) == Some(
                    (expr_view(e), final(self).pos()),
                ) && old(self).pos() < final(self).pos(),
                Err(er) => spec_term(old(self).toks(), old(self).pos()) is None && er
                    == Error::ParseError,
            },
        decreases self.tokens@.len() - self.current, 9int,
    {
        let ghost t = self.toks();
        let ghost i = self.pos();
        let mut e = match self.factor() {
            Err(er) => {
                return Err(er);
            },
            Ok(x) => x,
        };
        proof {
            assert(adv_t(t, i, self.pos()) == self.pos());
        }
        while self.current < self.tokens.len() && (self.tokens[self.current].kind
            == TokenKind::Plus || self.tokens[self.current].kind == TokenKind::Minus)
            invariant
                self.inv(),
                self.toks() == t,
                i < self.pos(),
                spec_term(t, i) == spec_term_rest(t, self.pos(), expr_view(e)),
            decreases self.tokens@.len() - self.current,
        {
            let op = self.tokens[self.current].clone();
            self.current = self.current + 1;
            let ghost p = self.pos();
            match self.factor() {
                Err(er) => {
                    return Err(er);
                },
                Ok(right) => {
                    proof {
                        assert(adv_t(t, p, self.pos()) == self.pos());
                    }
                    e = Expr::Binary { left: Box::new(e), op, right: Box::new(right) };
                },
            }
        }
        Ok(e)
    }

    fn expression(&mut self) -> (r: Result<Expr, Error>)
        requires
            old(self).inv(),
        ensures
            final(self).inv(),
            final(self).toks() == old(self).toks(),
            match r {
                Ok(e) => spec_expression(old(self).toks(), old(self).pos()) == Some(
                    (expr_view(e), final(self).pos()),
                ) && old(self).pos() < final(self).pos(),
                Err(er) => spec_expression(old(self).toks(), old(self).pos()) is None && er
                    == Error::ParseError,
            },
        decreases self.tokens@.len() - self.current, 10int,
    {
        self.term()
    }

    fn statement(&mut self) -> (r: Result<Stmt, Error>)
        requires
            old(self).inv(),
        ensures
            final(self).inv(),
            final(self).toks() == old(self).toks(),
            match r {
                Ok(s) => spec_statement(old(self).toks(), old(self).pos()) == Some(
                    (stmt_view(s), final(self).pos()),
                ) && old(self).pos() < final(self).pos(),
                Err(er) => spec_statement(old(self).toks(), old(self).pos()) is None && er
                    == Error::ParseError,
            },
        decreases self.tokens@.len() - self.current, 13int,
    {
        if self.current < self.tokens.len() && self.tokens[self.current].kind
            == TokenKind::Print {
            self.current = self.current + 1;
            match self.expression() {
                Err(er) => Err(er),
                Ok(e) => Ok(Stmt::Print(e)),
            }
        } else {
            match self.expression() {
                Err(er) => Err(er),
                Ok(e) => Ok(Stmt::Expression(e)),
            }
        }
    }

    #[verifier::loop_isolation(false)]
    #[verifier::rlimit(60)]
    fn declaration(&mut self) -> (r: Result<Stmt, Error>)
        requires
            old(self).inv(),
        ensures
            final(self).inv(),
            final(self).toks() == old(self).toks(),
            match r {
                Ok(s) => spec_declaration(old(self).toks(), old(self).pos()) == Some(
                    (stmt_view(s), final(self).pos()),
                ) && old(self).pos() < final(self).pos(),
                Err(er) => spec_declaration(old(self).toks(), old(self).pos()) is None && er
                    == Error::ParseError,
            },
        decreases self.tokens@.len() - self.current, 14int,
    {
        let ghost t = self.toks();
        let ghost i = self.pos();
        let stm = match self.statement() {
            Err(er) => {
                return Err(er);
            },
            Ok(s) => s,
        };
        proof {
            assert(adv_t(t, i, self.pos()) == self.pos());
        }
        if self.current < self.tokens.len() && self.tokens[self.current].kind
            == TokenKind::Equal {
            let ghost stmm = stmt_view(stm);
            self.current = self.current + 1;
            let init = match self.expression() {
                Err(er) => {
                    return Err(er);
                },
                Ok(e) => e,
            };
            let ghost initm = expr_view(init);
            let ghost kpos = self.pos();
            proof {
                assert(spec_declaration(t, i) == match reshape_decl(stmm, initm) {
                    None => None::<(StmtM, int)>,
                    Some(d) => Some((d, kpos)),
                });
            }
            match stm {
                Stmt::Expression(Expr::Variable(tok)) => {
                    let r = Stmt::Variable { name: tok, initializer: init };
                    proof {
                        assert(reshape_decl(stmm, initm) == Some(stmt_view(r)));
                    }
                    Ok(r)
                },
                Stmt::Expression(Expr::Call { callee, args }) => {
                    let ghost argsm = exprs_view(args@);
                    proof {
                        assert(stmm == StmtM::Expression(
                            ExprM::Call { callee: Box::new(expr_view(*callee)), args: argsm },
                        ));
                    }
                    match *callee {
                        Expr::Variable(ftok) => {
                            let mut params: Vec<Token> = Vec::new();
                            let mut k: usize = 0;
                            while k < args.len()
                                invariant
                                    k <= args.len(),
                                    params@.len() == k,
                                    forall|q: int|
                                        0 <= q < k ==> args@[q] is Variable
                                            && params@[q]@.lexeme == var_name(
                                            expr_view(args@[q]),
                                        ),
                                decreases args.len() - k,
                            {
                                match &args[k] {
                                    Expr::Variable(ptok) => {
                                        params.push(ptok.clone());
                                    },
                                    _ => {
                                        proof {
                                            assert(argsm[k as int] == expr_view(args@[k as int]));
                                            assert(!(argsm[k as int] is Variable));
                                            assert(!all_variables(argsm));
                                            assert(reshape_decl(stmm, initm) is None);
                                        }
                                        return Err(Error::ParseError);
                                    },
                                }
                                k = k + 1;
                            }
                            let fnc = Fnc { name: ftok, params, body: init };
                            proof {
                                assert forall|q: int| 0 <= q < argsm.len() implies argsm[q]
                                    is Variable by {
                                    assert(args@[q] is Variable);
                                    assert(argsm[q] == expr_view(args@[q]));
                                }
                                assert(all_variables(argsm));
                                assert forall|q: int| 0 <= q < argsm.len() implies
                                    crate::stmt::fnc_view(fnc).params[q] == param_names(
                                    argsm,
                                )[q] by {
                                    assert(argsm[q] == expr_view(args@[q]));
                                }
                                assert(crate::stmt::fnc_view(fnc).params =~= param_names(argsm));
                                assert(reshape_decl(stmm, initm) == Some(
                                    stmt_view(Stmt::Function(fnc)),
                                ));
                            }
                            Ok(Stmt::Function(fnc))
                        },
                        _ => {
                            proof {
                                assert(reshape_decl(stmm, initm) is None);
                            }
                            Err(Error::ParseError)
                        },
                    }
                },
                _ => {
                    proof {
                        assert(reshape_decl(stmm, initm) is None);
                    }
                    Err(Error::ParseError)
                },
            }
        } else {
            Ok(stm)
        }
    }

    /// Parses the whole token sequence into its statement list.
    #[verifier::loop_isolation(false)]
    pub fn parse(&mut self) -> (r: Result<Vec<Stmt>, Error>)
        requires
            old(self).inv(),
        ensures
            match r {
                Ok(ss) => spec_program(old(self).toks(), old(self).pos()) == Some(
                    stmts_view(ss@),
                ),
                Err(er) => spec_program(old(self).toks(), old(self).pos())
                    is None && er == Error::ParseError,
            },
    {
        let ghost t = self.toks();
        let ghost i0 = self.pos();
        let mut out: Vec<Stmt> = Vec::new();
        proof {
            assert(stmts_view(out@) =~= Seq::<StmtM>::empty());
        }
        while !(self.current >= self.tokens.len() || self.tokens[self.current].kind
            == TokenKind::Eof)
            invariant
                self.inv(),
                self.toks() == t,
                i0 <= self.pos(),
                spec_program(t, i0) == glue_stmts(stmts_view(out@), spec_program(t, self.pos())),
            decreases self.tokens@.len() - self.current,
        {
            let ghost p = self.pos();
            match self.declaration() {
                Err(er) => {
                    return Err(er);
                },
                Ok(stm) => {
                    proof {
                        assert(adv_t(t, p, self.pos()) == self.pos());
                        assert(spec_program(t, p) == match spec_program(t, self.pos()) {
                            None => None::<Seq<StmtM>>,
                            Some(rest) => Some(seq![stmt_view(stm)] + rest),
                        });
                        lemma_glue_stmts_step(stmts_view(out@), stmt_view(stm), spec_program(t, self.pos()));
                        assert(stmts_view(out@.push(stm)) =~= stmts_view(out@).push(stmt_view(stm)));
                    }
                    out.push(stm);
                },
            }
        }
        proof {
            assert(spec_program(t, self.pos()) == Some(Seq::<StmtM>::empty()));
            assert(stmts_view(out@) + Seq::<StmtM>::empty() =~= stmts_view(out@));
        }
        Ok(out)
    }
}

/// Whether an executable declaration's parameter tokens carry exactly the
/// parameter names of its model.
pub open spec fn fnc_params_match(f: Fnc, args: Seq<Expr>) -> bool {
    crate::stmt::fnc_view(f).params == param_names(exprs_view(args))
}

proof fn lemma_glue_stmts_step(done: Seq<StmtM>, s: StmtM, rest: Option<Seq<StmtM>>)
    ensures
        glue_stmts(done, match rest {
            None => None::<Seq<StmtM>>,
            Some(r) => Some(seq![s] + r),
        }) == glue_stmts(done.push(s), rest),
{
    match rest {
        Some(r) => {
            assert(done + (seq![s] + r) =~= done.push(s) + r);
        },
        None => {},
    }
}

} // verus!
