//! The tree-walking evaluator. The `spec_*` functions are the semantics of
//! the language — a function from tree, scope chain, and recursion budget to
//! result, new scope chain, and printed lines — and the `Interpreter` methods
//! compute them. Because the semantics is a function of its inputs alone,
//! evaluation is deterministic: re-running the same statements against the
//! same chain yields the same result.
//!
//! Evaluation carries a fuel budget that shrinks with expression nesting and
//! call depth and surfaces a depth error when exhausted: this realizes, as a
//! recoverable error, the accepted limitation that unbounded recursion cannot
//! run to completion.
use vstd::prelude::*;

use crate::callable::{arity_m, callable_view, Callable, CallableM};
use crate::environment::{env_define, env_lookup, EnvM, Environment};
use crate::error::Error;
use crate::expr::{expr_view, exprs_view, Expr, ExprM};
use crate::functions::{factors_list, x_bits, Function};
use crate::num::{sin_bits, trunc_bits, Num};
use crate::plotter::{NoPlotter, Plotter};
use crate::stmt::{stmt_view, stmts_view, Stmt, StmtM};
use crate::token::TokenKind;
use crate::value::{
    render_value, spec_binop, spec_neg, value_view, values_view, Value, ValueM,
};

verus! {

/// The fuel budget a statement's evaluation starts from. It shrinks with
/// expression nesting and with call depth; it is generous enough for any
/// ordinary session while keeping the machine stack bounded.
pub const MAX_DEPTH: u64 = 128;

/// The bit pattern of the binary64 value nearest to pi.
pub open spec fn pi_bits() -> u64 {
    0x400921FB54442D18u64
}

/// The number zero.
pub open spec fn zero_num() -> Num {
    Num { bits: 0 }
}

/// The ordinate a sampled value contributes: its number, or zero for any
/// other kind of value.
pub open spec fn y_of(v: ValueM) -> Num {
    match v {
        ValueM::Number(n) => n,
        _ => zero_num(),
    }
}

/// What evaluating an expression yields, and the scope chain it leaves
/// behind. Evaluation order is left to right; the only mutation an
/// expression can make is the self-binding of an unbound identifier and
/// whatever nested calls do to their own short-lived scopes.
pub open spec fn spec_eval(e: ExprM, st: EnvM, fuel: nat) -> (Result<ValueM, Error>, EnvM)
    decreases fuel, 0int,
{
    if fuel == 0 {
        (Err(Error::DepthError), st)
    } else {
        let less = (fuel - 1) as nat;
        match e {
            ExprM::Literal(n) => (Ok(ValueM::Number(n)), st),
            ExprM::Grouping(inner) => spec_eval(*inner, st, less),
            ExprM::Variable(name) => match env_lookup(st, name) {
                Some(v) => (Ok(v), st),
                None => (
                    Ok(ValueM::Unbound(name)),
                    env_define(st, name, ValueM::Unbound(name)),
                ),
            },
            ExprM::Unary { op, right } => {
                let r1 = spec_eval(*right, st, less);
                match r1.0 {
                    Err(er) => (Err(er), r1.1),
                    Ok(v) => if op == TokenKind::Minus {
                        (spec_neg(v), r1.1)
                    } else {
                        (Err(Error::TypeError), r1.1)
                    },
                }
            },
            ExprM::Binary { left, op, right } => {
                let rl = spec_eval(*left, st, less);
                match rl.0 {
                    Err(er) => (Err(er), rl.1),
                    Ok(v1) => {
                        let rr = spec_eval(*right, rl.1, less);
                        match rr.0 {
                            Err(er) => (Err(er), rr.1),
                            Ok(v2) => (spec_binop(op, v1, v2), rr.1),
                        }
                    },
                }
            },
            ExprM::Call { callee, args } => {
                let rc = spec_eval(*callee, st, less);
                match rc.0 {
                    Err(er) => (Err(er), rc.1),
                    Ok(cv) => {
                        let ra = spec_eval_args(args, 0, rc.1, less);
                        match ra.0 {
                            Err(er) => (Err(er), ra.1),
                            Ok(vals) => match cv {
                                ValueM::Function(c) => spec_invoke(c, vals, ra.1, less),
                                _ => (Err(Error::TypeError), ra.1),
                            },
                        }
                    },
                }
            },
        }
    }
}

/// The values of the argument expressions from index `k` on, evaluated left
/// to right.
pub open spec fn spec_eval_args(es: Seq<ExprM>, k: int, st: EnvM, fuel: nat) -> (
    Result<Seq<ValueM>, Error>,
    EnvM,
)
    decreases fuel, es.len() - k,
{
    if k < 0 || k >= es.len() {
        (Ok(Seq::empty()), st)
    } else {
        let r0 = spec_eval(es[k], st, fuel);
        match r0.0 {
            Err(er) => (Err(er), r0.1),
            Ok(v) => {
                let rr = spec_eval_args(es, k + 1, r0.1, fuel);
                match rr.0 {
                    Err(er) => (Err(er), rr.1),
                    Ok(vs) => (Ok(seq![v] + vs), rr.1),
                }
            },
        }
    }
}

/// What invoking a callable on already-evaluated argument values yields. An
/// argument count different from the callable's arity is an arity error and
/// leaves the scope chain untouched. A user function runs its body in one
/// fresh scope whose parent is the chain active here, at call time, and that
/// scope is discarded afterward, whether the body succeeded or not.
pub open spec fn spec_invoke(c: CallableM, vals: Seq<ValueM>, st: EnvM, fuel: nat) -> (
    Result<ValueM, Error>,
    EnvM,
)
    decreases fuel, 1int,
{
    if vals.len() != arity_m(c) {
        (Err(Error::ArityError), st)
    } else {
        match c {
            CallableM::Pi => (Ok(ValueM::Number(Num { bits: pi_bits() })), st),
            CallableM::Sin => match vals[0] {
                ValueM::Number(x) => (Ok(ValueM::Number(Num { bits: sin_bits(x.bits) })), st),
                _ => (Err(Error::TypeError), st),
            },
            CallableM::Factors => match vals[0] {
                ValueM::Number(x) => (Ok(ValueM::List(factors_list(trunc_bits(x.bits)))), st),
                _ => (Err(Error::TypeError), st),
            },
            CallableM::Plot => match vals[0] {
                ValueM::Function(f) => if fuel == 0 {
                    (Err(Error::DepthError), st)
                } else {
                    let rp = spec_plot(f, st, (fuel - 1) as nat, 0);
                    match rp.0 {
                        Ok(_) => (Ok(ValueM::Number(zero_num())), rp.1),
                        Err(er) => (Err(er), rp.1),
                    }
                },
                _ => (Err(Error::TypeError), st),
            },
            CallableM::Function(fm) => {
                let child = Seq::new(fm.params.len(), |q: int| (fm.params[q], vals[q]));
                let rb = spec_eval(fm.body, st.push(child), fuel);
                (rb.0, rb.1.drop_last())
            },
        }
    }
}

/// The sampled points of a plot from abscissa index `k` on: one invocation
/// of the callable per integer abscissa, in ascending order, each with the
/// same fuel.
pub open spec fn spec_plot(f: CallableM, st: EnvM, fuel: nat, k: int) -> (
    Result<Seq<(Num, Num)>, Error>,
    EnvM,
)
    decreases fuel, 21 - k,
{
    if k < 0 || k >= 20 {
        (Ok(Seq::empty()), st)
    } else {
        let x = x_bits(k);
        let ri = spec_invoke(f, seq![ValueM::Number(x)], st, fuel);
        match ri.0 {
            Err(er) => (Err(er), ri.1),
            Ok(v) => {
                let rp = spec_plot(f, ri.1, fuel, k + 1);
                match rp.0 {
                    Err(er) => (Err(er), rp.1),
                    Ok(rest) => (Ok(seq![(x, y_of(v))] + rest), rp.1),
                }
            },
        }
    }
}

/// What executing one statement yields: its value, the scope chain it leaves
/// behind, and the lines it prints. Declarations bind in the innermost scope
/// and are themselves worth zero.
pub open spec fn spec_exec_stmt(s: StmtM, st: EnvM, fuel: nat) -> (
    Result<ValueM, Error>,
    EnvM,
    Seq<Seq<char>>,
)
{
    match s {
        StmtM::Expression(e) => {
            let r = spec_eval(e, st, fuel);
            (r.0, r.1, Seq::empty())
        },
        StmtM::Print(e) => {
            let r = spec_eval(e, st, fuel);
            match r.0 {
                Err(er) => (Err(er), r.1, Seq::empty()),
                Ok(v) => (Ok(ValueM::Number(zero_num())), r.1, seq![render_value(v)]),
            }
        },
        StmtM::Variable { name, initializer } => {
            let r = spec_eval(initializer, st, fuel);
            match r.0 {
                Err(er) => (Err(er), r.1, Seq::empty()),
                Ok(v) => (Ok(ValueM::Number(zero_num())), env_define(r.1, name, v), Seq::empty()),
            }
        },
        StmtM::Function(fm) => (
            Ok(ValueM::Number(zero_num())),
            env_define(st, fm.name, ValueM::Function(CallableM::Function(fm))),
            Seq::empty(),
        ),
    }
}

/// What executing the statements from index `k` on yields: the value of the
/// last statement (or `last` if none follow), the scope chain, and the
/// printed lines in order. The first failure stops the run, but the chain it
/// leaves behind keeps everything bound before the failure.
pub open spec fn spec_interpret(ss: Seq<StmtM>, k: int, st: EnvM, fuel: nat, last: ValueM) -> (
    Result<ValueM, Error>,
    EnvM,
    Seq<Seq<char>>,
)
    decreases ss.len() - k,
{
    if k < 0 || k >= ss.len() {
        (Ok(last), st, Seq::empty())
    } else {
        let r = spec_exec_stmt(ss[k], st, fuel);
        match r.0 {
            Err(er) => (Err(er), r.1, r.2),
            Ok(v) => {
                let rr = spec_interpret(ss, k + 1, r.1, fuel, v);
                (rr.0, rr.1, r.2 + rr.2)
            },
        }
    }
}

/// One scope chain is a frame of another: same number of scopes, and every
/// scope but the innermost one unchanged.
pub open spec fn env_frame(before: EnvM, after: EnvM) -> bool {
    after.len() == before.len() && forall|q: int|
        0 <= q < before.len() - 1 ==> #[trigger] after[q] == before[q]
}

proof fn lemma_frame_trans(a: EnvM, b: EnvM, c: EnvM)
    requires
        env_frame(a, b),
        env_frame(b, c),
    ensures
        env_frame(a, c),
{
}

/// Evaluating an expression never adds or removes scopes, and never touches
/// any scope but the innermost one.
pub proof fn lemma_eval_frame(e: ExprM, st: EnvM, fuel: nat)
    requires
        st.len() >= 1,
    ensures
        env_frame(st, spec_eval(e, st, fuel).1),
    decreases fuel, 0int,
{
    if fuel > 0 {
        let less = (fuel - 1) as nat;
        match e {
            ExprM::Literal(_) => {},
            ExprM::Grouping(inner) => {
                lemma_eval_frame(*inner, st, less);
            },
            ExprM::Variable(_) => {},
            ExprM::Unary { op: _, right } => {
                lemma_eval_frame(*right, st, less);
            },
            ExprM::Binary { left, op: _, right } => {
                lemma_eval_frame(*left, st, less);
                let st1 = spec_eval(*left, st, less).1;
                lemma_eval_frame(*right, st1, less);
                lemma_frame_trans(st, st1, spec_eval(*right, st1, less).1);
            },
            ExprM::Call { callee, args } => {
                lemma_eval_frame(*callee, st, less);
                let st1 = spec_eval(*callee, st, less).1;
                lemma_eval_args_frame(args, 0, st1, less);
                let ra = spec_eval_args(args, 0, st1, less);
                lemma_frame_trans(st, st1, ra.1);
                if ra.0 is Ok {
                    match spec_eval(*callee, st, less).0 {
                        Ok(ValueM::Function(c)) => {
                            lemma_invoke_frame(c, ra.0->Ok_0, ra.1, less);
                            lemma_frame_trans(st, ra.1, spec_invoke(c, ra.0->Ok_0, ra.1, less).1);
                        },
                        _ => {},
                    }
                }
            },
        }
    }
}

/// Evaluating an argument list never adds or removes scopes, and never
/// touches any scope but the innermost one.
pub proof fn lemma_eval_args_frame(es: Seq<ExprM>, k: int, st: EnvM, fuel: nat)
    requires
        st.len() >= 1,
    ensures
        env_frame(st, spec_eval_args(es, k, st, fuel).1),
    decreases fuel, es.len() - k,
{
    if 0 <= k < es.len() {
        lemma_eval_frame(es[k], st, fuel);
        let r0 = spec_eval(es[k], st, fuel);
        if r0.0 is Ok {
            lemma_eval_args_frame(es, k + 1, r0.1, fuel);
            lemma_frame_trans(st, r0.1, spec_eval_args(es, k + 1, r0.1, fuel).1);
        }
    }
}

/// Invoking a callable restores the scope chain exactly: an arity or type
/// error leaves it untouched, a built-in never changes it, and a user call's
/// one fresh scope is discarded again.
pub proof fn lemma_invoke_frame(c: CallableM, vals: Seq<ValueM>, st: EnvM, fuel: nat)
    requires
        st.len() >= 1,
    ensures
        spec_invoke(c, vals, st, fuel).1 == st,
    decreases fuel, 1int,
{
    if vals.len() == arity_m(c) {
        match c {
            CallableM::Plot => {
                match vals[0] {
                    ValueM::Function(f) => {
                        if fuel > 0 {
                            lemma_plot_frame(f, st, (fuel - 1) as nat, 0);
                        }
                    },
                    _ => {},
                }
            },
            CallableM::Function(fm) => {
                let child = Seq::new(fm.params.len(), |q: int| (fm.params[q], vals[q]));
                lemma_eval_frame(fm.body, st.push(child), fuel);
                let rb = spec_eval(fm.body, st.push(child), fuel);
                assert(env_frame(st.push(child), rb.1));
                assert forall|q: int| 0 <= q < st.len() implies rb.1.drop_last()[q] == st[q] by {
                    assert(rb.1[q] == st.push(child)[q]);
                }
                assert(rb.1.drop_last() =~= st);
            },
            _ => {},
        }
    }
}

/// Sampling a plot restores the scope chain exactly.
pub proof fn lemma_plot_frame(f: CallableM, st: EnvM, fuel: nat, k: int)
    requires
        st.len() >= 1,
    ensures
        spec_plot(f, st, fuel, k).1 == st,
    decreases fuel, 21 - k,
{
    if 0 <= k < 20 {
        lemma_invoke_frame(f, seq![ValueM::Number(x_bits(k))], st, fuel);
        let ri = spec_invoke(f, seq![ValueM::Number(x_bits(k))], st, fuel);
        if ri.0 is Ok {
            lemma_plot_frame(f, ri.1, fuel, k + 1);
        }
    }
}

/// Calling any callable with an argument count different from its arity
/// yields an arity error — never a crash — and does not mutate the
/// environment.
pub proof fn lemma_arity_mismatch(c: CallableM, vals: Seq<ValueM>, st: EnvM, fuel: nat)
    requires
        vals.len() != arity_m(c),
    ensures
        spec_invoke(c, vals, st, fuel) == (Err::<ValueM, Error>(Error::ArityError), st),
{
}

/// Referencing a never-assigned identifier does not fail: it yields a
/// placeholder whose rendering is exactly the identifier's own name, binds
/// that placeholder in the innermost scope, and a later lookup finds the
/// same placeholder.
pub proof fn lemma_unbound_variable(name: Seq<char>, st: EnvM, fuel: nat)
    requires
        st.len() >= 1,
        fuel >= 1,
        env_lookup(st, name) is None,
    ensures
        ({
            let r = spec_eval(ExprM::Variable(name), st, fuel);
            &&& r.0 == Ok::<ValueM, Error>(ValueM::Unbound(name))
            &&& env_lookup(r.1, name) == Some(ValueM::Unbound(name))
            &&& render_value(ValueM::Unbound(name)) == name
        }),
{
    let st2 = env_define(st, name, ValueM::Unbound(name));
    assert(st2.last() == st.last().push((name, ValueM::Unbound(name))));
    assert(st2.last().last() == (name, ValueM::Unbound(name)));
    assert(crate::environment::scope_lookup(st2.last(), name) == Some(ValueM::Unbound(name)));
}

/// Plot sampling: a successful `plot(f)` makes exactly 20 calls to `f`, at
/// the integer abscissas -10 through 9 in ascending order, each with the
/// same fuel and against the same scope chain; the resulting list pairs each
/// abscissa with the number that call returned, and the chain comes back
/// unchanged.
pub proof fn lemma_plot_sampling(f: CallableM, st: EnvM, fuel: nat)
    requires
        st.len() >= 1,
    ensures
        ({
            let rp = spec_plot(f, st, fuel, 0);
            &&& rp.1 == st
            &&& match rp.0 {
                Ok(pts) => pts.len() == 20 && forall|k: int|
                    0 <= k < 20 ==> {
                        let ri = spec_invoke(f, seq![ValueM::Number(x_bits(k))], st, fuel);
                        (#[trigger] pts[k]).0 == x_bits(k) && ri.0 is Ok && pts[k].1 == y_of(
                            ri.0->Ok_0,
                        )
                    },
                Err(_) => true,
            }
        }),
{
    lemma_plot_sampling_from(f, st, fuel, 0);
    let rp = spec_plot(f, st, fuel, 0);
    if rp.0 is Ok {
        let pts = rp.0->Ok_0;
        assert forall|k: int| 0 <= k < 20 implies {
            let ri = spec_invoke(f, seq![ValueM::Number(x_bits(k))], st, fuel);
            (#[trigger] pts[k]).0 == x_bits(k) && ri.0 is Ok && pts[k].1 == y_of(ri.0->Ok_0)
        } by {
            assert(pts[k - 0].0 == x_bits(k));
            assert(pts[k - 0].1 == y_of(
                spec_invoke(f, seq![ValueM::Number(x_bits(k))], st, fuel).0->Ok_0,
            ));
        }
    }
}

proof fn lemma_plot_sampling_from(f: CallableM, st: EnvM, fuel: nat, k: int)
    requires
        st.len() >= 1,
        0 <= k <= 20,
    ensures
        ({
            let rp = spec_plot(f, st, fuel, k);
            &&& rp.1 == st
            &&& match rp.0 {
                Ok(pts) => pts.len() == 20 - k && forall|j: int|
                    k <= j < 20 ==> {
                        let ri = spec_invoke(f, seq![ValueM::Number(x_bits(j))], st, fuel);
                        (#[trigger] pts[j - k]).0 == x_bits(j) && ri.0 is Ok && pts[j - k].1
                            == y_of(ri.0->Ok_0)
                    },
                Err(_) => true,
            }
        }),
    decreases 20 - k,
{
    if k < 20 {
        lemma_invoke_frame(f, seq![ValueM::Number(x_bits(k))], st, fuel);
        let ri = spec_invoke(f, seq![ValueM::Number(x_bits(k))], st, fuel);
        if ri.0 is Ok {
            lemma_plot_sampling_from(f, st, fuel, k + 1);
            let rp = spec_plot(f, st, fuel, k);
            let rnext = spec_plot(f, ri.1, fuel, k + 1);
            if rnext.0 is Ok {
                let pts = rp.0->Ok_0;
                let rest = rnext.0->Ok_0;
                assert(pts == seq![(x_bits(k), y_of(ri.0->Ok_0))] + rest);
                assert forall|j: int| k <= j < 20 implies {
                    let rj = spec_invoke(f, seq![ValueM::Number(x_bits(j))], st, fuel);
                    (#[trigger] pts[j - k]).0 == x_bits(j) && rj.0 is Ok && pts[j - k].1 == y_of(
                        rj.0->Ok_0,
                    )
                } by {
                    if j == k {
                        assert(pts[0] == (x_bits(k), y_of(ri.0->Ok_0)));
                    } else {
                        assert(pts[j - k] == rest[j - (k + 1)]);
                    }
                }
            }
        }
    }
}

/// Prepends already-computed argument values in front of the rest of an
/// argument evaluation.
pub open spec fn args_ok_prefix(
    done: Seq<ValueM>,
    rest: (Result<Seq<ValueM>, Error>, EnvM),
) -> Result<Seq<ValueM>, Error> {
    match rest.0 {
        Ok(vs) => Ok(done + vs),
        Err(er) => Err(er),
    }
}

/// Prepends already-sampled points in front of the rest of a plot sampling.
pub open spec fn pts_ok_prefix(
    done: Seq<(Num, Num)>,
    rest: (Result<Seq<(Num, Num)>, Error>, EnvM),
) -> Result<Seq<(Num, Num)>, Error> {
    match rest.0 {
        Ok(ps) => Ok(done + ps),
        Err(er) => Err(er),
    }
}

/// The evaluator of one session: its scope chain, the optional plot
/// renderer, and the lines printed so far.
pub struct Interpreter<P: Plotter> {
    pub environment: Environment,
    pub plotter: Option<P>,
    pub output: Vec<String>,
}

impl Interpreter<NoPlotter> {
    /// A fresh session: the global scope with the built-ins, no plotter.
    pub fn new() -> (r: Interpreter<NoPlotter>)
        ensures
            r.wf(),
            r.environment@ == crate::environment::global_env(),
            r.out() == Seq::<Seq<char>>::empty(),
    {
        let r = Interpreter {
            environment: Environment::global(),
            plotter: None,
            output: Vec::new(),
        };
        proof {
            assert(r.out() =~= Seq::<Seq<char>>::empty());
        }
        r
    }
}

impl<P: Plotter> Interpreter<P> {
    /// The scope chain is never empty.
    pub open spec fn wf(&self) -> bool {
        self.environment.wf()
    }

    /// The lines printed so far, in order.
    pub open spec fn out(&self) -> Seq<Seq<char>> {
        Seq::new(self.output@.len(), |i: int| self.output@[i]@)
    }

    /// The same session, rendering plots through the given collaborator.
    pub fn with_plotter<Q: Plotter>(self, plotter: Q) -> (r: Interpreter<Q>)
        ensures
            r.environment@ == self.environment@,
            r.out() == self.out(),
            r.wf() == self.wf(),
    {
        let r = Interpreter {
            environment: self.environment,
            plotter: Some(plotter),
            output: self.output,
        };
        proof {
            assert(r.out() =~= self.out());
        }
        r
    }

    /// The lines printed so far; taking them empties the buffer.
    pub fn take_output(&mut self) -> (out: Vec<String>)
        ensures
            final(self).environment@ == old(self).environment@,
            final(self).out() == Seq::<Seq<char>>::empty(),
            Seq::new(out@.len(), |i: int| out@[i]@) == old(self).out(),
    {
        let mut drained: Vec<String> = Vec::new();
        core::mem::swap(&mut drained, &mut self.output);
        proof {
            assert(self.out() =~= Seq::<Seq<char>>::empty());
            assert(Seq::new(drained@.len(), |i: int| drained@[i]@) =~= old(self).out());
        }
        drained
    }

    /// Evaluates one expression against the current scope chain.
    #[verifier::loop_isolation(false)]
    #[verifier::rlimit(100)]
    fn eval_expr(&mut self, e: &Expr, fuel: u64) -> (r: Result<Value, Error>)
        requires
            old(self).wf(),
        ensures
            final(self).wf(),
            final(self).out() == old(self).out(),
            ({
                let sr = spec_eval(expr_view(*e), old(self).environment@, fuel as nat);
                &&& final(self).environment@ == sr.1
                &&& match r {
                    Ok(v) => sr.0 == Ok::<ValueM, Error>(value_view(v)),
                    Err(er) => sr.0 == Err::<ValueM, Error>(er),
                }
            }),
        decreases fuel, 0int,
    {
        if fuel == 0 {
            return Err(Error::DepthError);
        }
        let less = fuel - 1;
        match e {
            Expr::Literal(crate::token::LiteralKind::Number(n)) => Ok(Value::Number(*n)),
            Expr::Grouping(inner) => self.eval_expr(&**inner, less),
            Expr::Variable(tok) => {
                match self.environment.get(&tok.lexeme) {
                    Some(v) => Ok(v),
                    None => {
                        let placeholder = Value::Unbound(tok.lexeme.clone());
                        self.environment.define(tok.lexeme.clone(), placeholder);
                        Ok(Value::Unbound(tok.lexeme.clone()))
                    },
                }
            },
            Expr::Unary { op, right } => {
                let v = match self.eval_expr(&**right, less) {
                    Err(er) => {
                        return Err(er);
                    },
                    Ok(v) => v,
                };
                if op.kind == TokenKind::Minus {
                    v.neg()
                } else {
                    Err(Error::TypeError)
                }
            },
            Expr::Binary { left, op, right } => {
                let v1 = match self.eval_expr(&**left, less) {
                    Err(er) => {
                        return Err(er);
                    },
                    Ok(v) => v,
                };
                let v2 = match self.eval_expr(&**right, less) {
                    Err(er) => {
                        return Err(er);
                    },
                    Ok(v) => v,
                };
                v1.binop(op.kind, v2)
            },
            Expr::Call { callee, args } => {
                let cv = match self.eval_expr(&**callee, less) {
                    Err(er) => {
                        return Err(er);
                    },
                    Ok(v) => v,
                };
                let ghost st1 = self.environment@;
                let ghost argsm = exprs_view(args@);
                let mut vals: Vec<Value> = Vec::new();
                let mut k: usize = 0;
                proof {
                    assert(values_view(vals@) =~= Seq::<ValueM>::empty());
                    let full = spec_eval_args(argsm, 0, st1, less as nat);
                    match full.0 {
                        Ok(vs) => {
                            assert(values_view(vals@) + vs =~= vs);
                        },
                        Err(_) => {},
                    }
                }
                while k < args.len()
                    invariant
                        self.wf(),
                        self.out() == old(self).out(),
                        k <= args.len(),
                        vals@.len() == k,
                        argsm.len() == args@.len(),
                        spec_eval_args(argsm, 0, st1, less as nat).1 == spec_eval_args(
                            argsm,
                            k as int,
                            self.environment@,
                            less as nat,
                        ).1,
                        spec_eval_args(argsm, 0, st1, less as nat).0 == args_ok_prefix(
                            values_view(vals@),
                            spec_eval_args(argsm, k as int, self.environment@, less as nat),
                        ),
                    decreases args.len() - k,
                {
                    proof {
                        assert(argsm[k as int] == expr_view(args@[k as int]));
                    }
                    let ghost done = values_view(vals@);
                    match self.eval_expr(&args[k], less) {
                        Err(er) => {
                            return Err(er);
                        },
                        Ok(v) => {
                            vals.push(v);
                            proof {
                                assert(values_view(vals@) =~= done.push(value_view(v)));
                                let rest = spec_eval_args(
                                    argsm,
                                    k + 1 as int,
                                    self.environment@,
                                    less as nat,
                                );
                                match rest.0 {
                                    Ok(vs) => {
                                        assert(done + (seq![value_view(v)] + vs) =~= done.push(
                                            value_view(v),
                                        ) + vs);
                                    },
                                    Err(_) => {},
                                }
                            }
                        },
                    }
                    k = k + 1;
                }
                match cv {
                    Value::Function(callable) => self.invoke(&callable, vals, less),
                    _ => Err(Error::TypeError),
                }
            },
        }
    }

    /// Invokes a callable on already-evaluated argument values.
    #[verifier::loop_isolation(false)]
    #[verifier::rlimit(100)]
    fn invoke(&mut self, c: &Callable, vals: Vec<Value>, fuel: u64) -> (r: Result<Value, Error>)
        requires
            old(self).wf(),
        ensures
            final(self).wf(),
            final(self).out() == old(self).out(),
            ({
                let sr = spec_invoke(
                    callable_view(*c),
                    values_view(vals@),
                    old(self).environment@,
                    fuel as nat,
                );
                &&& final(self).environment@ == sr.1
                &&& match r {
                    Ok(v) => sr.0 == Ok::<ValueM, Error>(value_view(v)),
                    Err(er) => sr.0 == Err::<ValueM, Error>(er),
                }
            }),
        decreases fuel, 1int,
    {
        let arity = c.arity();
        if (vals.len() as u64) != arity {
            return Err(Error::ArityError);
        }
        match c {
            Callable::Pi(p) => Ok(Value::Number(p.value())),
            Callable::Sin(s) => match &vals[0] {
                Value::Number(x) => Ok(Value::Number(s.apply(*x))),
                _ => Err(Error::TypeError),
            },
            Callable::Factors(f) => match &vals[0] {
                Value::Number(x) => Ok(Value::List(f.divisors(x.trunc_u64()))),
                _ => Err(Error::TypeError),
            },
            Callable::Plot(_) => match &vals[0] {
                Value::Function(inner) => {
                    if fuel == 0 {
                        return Err(Error::DepthError);
                    }
                    match self.plot_samples(inner, fuel - 1) {
                        Err(er) => Err(er),
                        Ok(points) => {
                            match &self.plotter {
                                Some(renderer) => {
                                    let _ = renderer.plot(&points);
                                },
                                None => {},
                            }
                            Ok(Value::Number(Num::zero()))
                        },
                    }
                },
                _ => Err(Error::TypeError),
            },
            Callable::Function(f) => {
                let ghost st0 = self.environment@;
                let ghost fm = crate::stmt::fnc_view(f.declaration);
                let ghost child = Seq::new(
                    fm.params.len(),
                    |q: int| (fm.params[q], values_view(vals@)[q]),
                );
                self.environment.push_scope();
                let n = f.declaration.params.len();
                let mut q: usize = 0;
                proof {
                    assert(child.subrange(0, 0) =~= Seq::<(Seq<char>, ValueM)>::empty());
                    assert(self.environment@ =~~= st0.push(child.subrange(0, 0)));
                }
                while q < n
                    invariant
                        n == f.declaration.params@.len(),
                        vals@.len() == n,
                        q <= n,
                        self.out() == old(self).out(),
                        self.environment@ == st0.push(child.subrange(0, q as int)),
                    decreases n - q,
                {
                    let pname = f.declaration.params[q].lexeme.clone();
                    let v = vals[q].clone();
                    self.environment.define(pname, v);
                    proof {
                        assert(self.environment@ =~~= st0.push(child.subrange(0, q + 1 as int)));
                    }
                    q = q + 1;
                }
                proof {
                    assert(child.subrange(0, child.len() as int) =~= child);
                }
                let res = self.eval_expr(&f.declaration.body, fuel);
                proof {
                    lemma_eval_frame(fm.body, st0.push(child), fuel as nat);
                }
                self.environment.pop_scope();
                proof {
                    assert(self.environment@ =~= spec_eval(
                        fm.body,
                        st0.push(child),
                        fuel as nat,
                    ).1.drop_last());
                }
                res
            },
        }
    }

    /// Samples the function a plot call was handed, once per abscissa, in
    /// ascending order, and forwards the points to the plot renderer's
    /// caller.
    #[verifier::loop_isolation(false)]
    #[verifier::rlimit(100)]
    fn plot_samples(&mut self, f: &Callable, fuel: u64) -> (r: Result<Vec<(Num, Num)>, Error>)
        requires
            old(self).wf(),
        ensures
            final(self).wf(),
            final(self).out() == old(self).out(),
            ({
                let sr = spec_plot(callable_view(*f), old(self).environment@, fuel as nat, 0);
                &&& final(self).environment@ == sr.1
                &&& match r {
                    Ok(pts) => sr.0 == Ok::<Seq<(Num, Num)>, Error>(pts@),
                    Err(er) => sr.0 == Err::<Seq<(Num, Num)>, Error>(er),
                }
            }),
        decreases fuel, 21int,
    {
        let ghost st0 = self.environment@;
        let ghost fm = callable_view(*f);
        let mut points: Vec<(Num, Num)> = Vec::new();
        let mut k: usize = 0;
        proof {
            let full = spec_plot(fm, st0, fuel as nat, 0);
            match full.0 {
                Ok(ps) => {
                    assert(points@ + ps =~= ps);
                },
                Err(_) => {},
            }
        }
        while k < 20
            invariant
                self.wf(),
                self.out() == old(self).out(),
                fm == callable_view(*f),
                k <= 20,
                points@.len() == k,
                spec_plot(fm, st0, fuel as nat, 0).1 == spec_plot(
                    fm,
                    self.environment@,
                    fuel as nat,
                    k as int,
                ).1,
                spec_plot(fm, st0, fuel as nat, 0).0 == pts_ok_prefix(
                    points@,
                    spec_plot(fm, self.environment@, fuel as nat, k as int),
                ),
            decreases 20 - k,
        {
            let x = crate::functions::Plot.sample_x(k);
            let mut sample_args: Vec<Value> = Vec::new();
            sample_args.push(Value::Number(x));
            proof {
                assert(values_view(sample_args@) =~= seq![ValueM::Number(x_bits(k as int))]);
            }
            let ghost done = points@;
            match self.invoke(f, sample_args, fuel) {
                Err(er) => {
                    return Err(er);
                },
                Ok(v) => {
                    let y = match &v {
                        Value::Number(n) => *n,
                        _ => Num::zero(),
                    };
                    points.push((x, y));
                    proof {
                        assert(y == y_of(value_view(v)));
                        let rest = spec_plot(fm, self.environment@, fuel as nat, k + 1 as int);
                        match rest.0 {
                            Ok(ps) => {
                                assert(done + (seq![(x_bits(k as int), y_of(value_view(v)))] + ps)
                                    =~= done.push((x_bits(k as int), y_of(value_view(v)))) + ps);
                            },
                            Err(_) => {},
                        }
                        assert(points@ =~= done.push((x_bits(k as int), y_of(value_view(v)))));
                    }
                },
            }
            k = k + 1;
        }
        proof {
            assert(points@ + Seq::<(Num, Num)>::empty() =~= points@);
        }
        Ok(points)
    }

    /// Evaluates an expression inside a given environment, restoring the
    /// session's own environment afterward even when evaluation fails; what
    /// the expression did to the given environment is discarded.
    pub fn evaluate_inner(&mut self, expr: &Expr, environment: Environment) -> (r: Result<
        Value,
        Error,
    >)
        requires
            old(self).wf(),
            environment.wf(),
        ensures
            final(self).wf(),
            final(self).environment@ == old(self).environment@,
            final(self).out() == old(self).out(),
            ({
                let sr = spec_eval(expr_view(*expr), environment@, MAX_DEPTH as nat);
                match r {
                    Ok(v) => sr.0 == Ok::<ValueM, Error>(value_view(v)),
                    Err(er) => sr.0 == Err::<ValueM, Error>(er),
                }
            }),
    {
        let mut env = environment;
        core::mem::swap(&mut self.environment, &mut env);
        let r = self.eval_expr(expr, MAX_DEPTH);
        core::mem::swap(&mut self.environment, &mut env);
        r
    }

    /// Executes one statement.
    #[verifier::rlimit(100)]
    fn execute(&mut self, s: &Stmt, fuel: u64) -> (r: Result<Value, Error>)
        requires
            old(self).wf(),
        ensures
            final(self).wf(),
            ({
                let sr = spec_exec_stmt(stmt_view(*s), old(self).environment@, fuel as nat);
                &&& final(self).environment@ == sr.1
                &&& final(self).out() == old(self).out() + sr.2
                &&& match r {
                    Ok(v) => sr.0 == Ok::<ValueM, Error>(value_view(v)),
                    Err(er) => sr.0 == Err::<ValueM, Error>(er),
                }
            }),
    {
        proof {
            assert(old(self).out() + Seq::<Seq<char>>::empty() =~= old(self).out());
        }
        match s {
            Stmt::Expression(e) => self.eval_expr(e, fuel),
            Stmt::Print(e) => {
                let v = match self.eval_expr(e, fuel) {
                    Err(er) => {
                        return Err(er);
                    },
                    Ok(v) => v,
                };
                let line = v.render();
                let ghost before = self.out();
                self.output.push(line);
                proof {
                    assert(self.out() =~= before.push(line@));
                    assert(before.push(line@) =~= before + seq![line@]);
                }
                Ok(Value::Number(Num::zero()))
            },
            Stmt::Variable { name, initializer } => {
                let v = match self.eval_expr(initializer, fuel) {
                    Err(er) => {
                        return Err(er);
                    },
                    Ok(v) => v,
                };
                self.environment.define(name.lexeme.clone(), v);
                Ok(Value::Number(Num::zero()))
            },
            Stmt::Function(f) => {
                let fv = Value::Function(Callable::Function(Function { declaration: f.clone() }));
                self.environment.define(f.name.lexeme.clone(), fv);
                Ok(Value::Number(Num::zero()))
            },
        }
    }

    /// Runs a statement list in order: the result is the last statement's
    /// value (zero for an empty list), the first failure stops the run, and
    /// bindings made by statements that completed before a failure remain.
    #[verifier::loop_isolation(false)]
    #[verifier::rlimit(100)]
    pub fn interpret(&mut self, statements: Vec<Stmt>) -> (r: Result<Value, Error>)
        requires
            old(self).wf(),
        ensures
            final(self).wf(),
            ({
                let sr = spec_interpret(
                    stmts_view(statements@),
                    0,
                    old(self).environment@,
                    MAX_DEPTH as nat,
                    ValueM::Number(zero_num()),
                );
                &&& final(self).environment@ == sr.1
                &&& final(self).out() == old(self).out() + sr.2
                &&& match r {
                    Ok(v) => sr.0 == Ok::<ValueM, Error>(value_view(v)),
                    Err(er) => sr.0 == Err::<ValueM, Error>(er),
                }
            }),
    {
        let ghost ssm = stmts_view(statements@);
        let ghost st0 = self.environment@;
        let ghost out0 = self.out();
        let ghost full = spec_interpret(ssm, 0, st0, MAX_DEPTH as nat, ValueM::Number(zero_num()));
        let mut val = Value::Number(Num::zero());
        let mut k: usize = 0;
        let ghost mut done: Seq<Seq<char>> = Seq::empty();
        proof {
            assert(out0 + done =~= out0);
            assert(done + full.2 =~= full.2);
        }
        while k < statements.len()
            invariant
                self.wf(),
                k <= statements@.len(),
                ssm.len() == statements@.len(),
                self.out() == out0 + done,
                full == ({
                    let rest = spec_interpret(
                        ssm,
                        k as int,
                        self.environment@,
                        MAX_DEPTH as nat,
                        value_view(val),
                    );
                    (rest.0, rest.1, done + rest.2)
                }),
            decreases statements@.len() - k,
        {
            proof {
                assert(ssm[k as int] == stmt_view(statements@[k as int]));
            }
            let ghost env_before = self.environment@;
            let ghost done_before = done;
            let ghost step = spec_exec_stmt(ssm[k as int], env_before, MAX_DEPTH as nat);
            match self.execute(&statements[k], MAX_DEPTH) {
                Err(er) => {
                    proof {
                        assert((out0 + done_before) + step.2 =~= out0 + (done_before + step.2));
                    }
                    return Err(er);
                },
                Ok(v) => {
                    val = v;
                    proof {
                        done = done_before + step.2;
                        assert((out0 + done_before) + step.2 =~= out0 + done);
                        let rest = spec_interpret(
                            ssm,
                            k + 1 as int,
                            self.environment@,
                            MAX_DEPTH as nat,
                            value_view(val),
                        );
                        assert(done_before + (step.2 + rest.2) =~= done + rest.2);
                    }
                },
            }
            k = k + 1;
        }
        proof {
            assert(done + Seq::<Seq<char>>::empty() =~= done);
        }
        Ok(val)
    }
}

} // verus!

