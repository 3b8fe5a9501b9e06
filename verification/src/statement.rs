//! Statements: binding definitions, function definitions, and bare
//! expressions.
use vstd::prelude::*;

use crate::binding_def::BindingDef;
use crate::expr::{Expr, SpecExpr};
use crate::func_def::FuncDef;

use crate::val::Val;

verus! {

broadcast use vstd::seq::axiom_seq_index_decreases, vstd::seq::axiom_seq_subrange_decreases;

/// The mathematical model of a statement.
#[verifier::ext_equal]
pub enum SpecStmt {
    BindingDef { name: Seq<char>, value: SpecExpr },
    FuncDef { name: Seq<char>, params: Seq<Seq<char>>, body: Box<SpecStmt> },
    Expr(SpecExpr),
}

#[derive(Debug, PartialEq)]
pub enum Statement {
    BindingDef(BindingDef),
    FuncDef(FuncDef),
    Expr(Expr),
}

pub open spec fn stmt_view(st: Statement) -> SpecStmt
    decreases st,
{
    match st {
        Statement::BindingDef(bd) => SpecStmt::BindingDef {
            name: bd.name@,
            value: crate::expr::expr_view(bd.val),
        },
        Statement::FuncDef(fd) => SpecStmt::FuncDef {
            name: fd.name@,
            params: crate::utils::strings_view(fd.params@),
            body: Box::new(stmt_view(*fd.body)),
        },
        Statement::Expr(e) => SpecStmt::Expr(crate::expr::expr_view(e)),
    }
}

pub open spec fn stmts_view(ss: Seq<Statement>) -> Seq<SpecStmt>
    decreases ss,
{
    if ss.len() == 0 {
        Seq::empty()
    } else {
        seq![stmt_view(ss[0])] + stmts_view(ss.subrange(1, ss.len() as int))
    }
}

impl View for Statement {
    type V = SpecStmt;

    open spec fn view(&self) -> SpecStmt {
        stmt_view(*self)
    }
}

pub proof fn lemma_stmts_view_index(ss: Seq<Statement>)
    ensures
        stmts_view(ss).len() == ss.len(),
        forall|i: int| 0 <= i < ss.len() ==> stmts_view(ss)[i] == ss[i]@,
    decreases ss.len(),
{
    if ss.len() != 0 {
        lemma_stmts_view_index(ss.subrange(1, ss.len() as int));
        assert forall|i: int| 0 <= i < ss.len() implies stmts_view(ss)[i] == ss[i]@ by {
            if i > 0 {
                assert(stmts_view(ss.subrange(1, ss.len() as int))[i - 1] == ss.subrange(
                    1,
                    ss.len() as int,
                )[i - 1]@);
            }
        }
    }
}

/// The number of nodes in a statement; every statement has at least one.
pub open spec fn stmt_size(st: SpecStmt) -> nat
    decreases st,
{
    match st {
        SpecStmt::BindingDef { name, value } => 1 + crate::expr::expr_size(value),
        SpecStmt::FuncDef { name, params, body } => 1 + stmt_size(*body),
        SpecStmt::Expr(e) => 1 + crate::expr::expr_size(e),
    }
}

pub open spec fn stmts_size(ss: Seq<SpecStmt>) -> nat
    decreases ss,
{
    if ss.len() == 0 {
        0
    } else {
        1 + stmt_size(ss[0]) + stmts_size(ss.subrange(1, ss.len() as int))
    }
}

pub proof fn lemma_stmts_size_index(ss: Seq<SpecStmt>, i: int)
    requires
        0 <= i < ss.len(),
    ensures
        stmt_size(ss[i]) < stmts_size(ss),
    decreases ss.len(),
{
    if i > 0 {
        lemma_stmts_size_index(ss.subrange(1, ss.len() as int), i - 1);
        assert(ss.subrange(1, ss.len() as int)[i - 1] == ss[i]);
    }
}

// ---------------------------------------------------------------------------
// Parsing
// ---------------------------------------------------------------------------

/// A statement: a function definition, a binding definition, or a bare
/// expression, tried in that order.
pub open spec fn spec_statement(s: Seq<char>) -> Result<(Seq<char>, SpecStmt), Seq<char>>
    decreases s.len(), 80int,
{
    match crate::func_def::spec_func_def(s) {
        Ok((rem, fd)) => Ok(
            (rem, SpecStmt::FuncDef { name: fd.0, params: fd.1, body: Box::new(fd.2) }),
        ),
        Err(_) => match crate::binding_def::spec_binding_def(s) {
            Ok((rem, bd)) => Ok((rem, SpecStmt::BindingDef { name: bd.0, value: bd.1 })),
            Err(_) => match crate::expr::spec_expr(s) {
                Ok((rem, e)) => Ok((rem, SpecStmt::Expr(e))),
                Err(m) => Err(m),
            },
        },
    }
}

/// Statements taken while they parse, whitespace consumed after each one;
/// this never fails, and stops at the point of the last success.
pub open spec fn spec_stmt_sequence(s: Seq<char>) -> (Seq<char>, Seq<SpecStmt>)
    decreases s.len(), 90int,
{
    match spec_statement(s) {
        Err(_) => (s, Seq::empty()),
        Ok((s1, st)) => {
            let s2 = crate::utils::spec_extract_whitespaces(s1).0;
            if s2.len() < s.len() {
                let (s3, rest) = spec_stmt_sequence(s2);
                (s3, seq![st] + rest)
            } else {
                // never reached: a statement always consumes input
                (s2, seq![st])
            }
        },
    }
}

impl Statement {
    /// Parses one statement.
    pub fn new<'a>(s: &'a str) -> (r: Result<(&'a str, Statement), String>)
        ensures
            (match (r, spec_statement(s@)) {
                (Ok((rem, st)), Ok(p)) => rem@ == p.0 && st@ == p.1,
                (Err(m), Err(sm)) => m@ == sm,
                _ => false,
            }),
            r matches Ok(p) ==> p.0@.len() < s@.len(),
        decreases s@.len(), 80int,
    {
        match crate::func_def::FuncDef::new(s) {
            Ok((rem, fd)) => Ok((rem, Statement::FuncDef(fd))),
            Err(_) => match crate::binding_def::BindingDef::new(s) {
                Ok((rem, bd)) => Ok((rem, Statement::BindingDef(bd))),
                Err(_) => match Expr::new(s) {
                    Ok((rem, e)) => Ok((rem, Statement::Expr(e))),
                    Err(m) => Err(m),
                },
            },
        }
    }
}

/// The executable statement sequence behind block parsing.
pub(crate) fn statement_sequence<'a>(s: &'a str) -> (r: (&'a str, Vec<Statement>))
    ensures
        r.0@ == spec_stmt_sequence(s@).0,
        stmts_view(r.1@) == spec_stmt_sequence(s@).1,
        r.0@.len() <= s@.len(),
    decreases s@.len(), 90int,
{
    match Statement::new(s) {
        Err(_) => (s, Vec::new()),
        Ok((s1, st)) => {
            let (s2, _) = crate::utils::extract_whitespaces(s1);
            let (s3, mut rest) = statement_sequence(s2);
            let ghost rest0 = rest@;
            let ghost st0 = st@;
            let mut items: Vec<Statement> = Vec::new();
            items.push(st);
            items.append(&mut rest);
            proof {
                assert(items@.subrange(1, items@.len() as int) =~= rest0);
                assert(stmts_view(items@) =~= seq![st0] + spec_stmt_sequence(s2@).1);
            }
            (s3, items)
        },
    }
}

// ---------------------------------------------------------------------------
// Evaluation
// ---------------------------------------------------------------------------

/// What a statement yields and how it changes the environment: definitions
/// store themselves in the innermost scope and yield the unit value; a bare
/// expression yields its value and leaves the environment alone. An error
/// leaves the environment unchanged.
pub open spec fn spec_eval_stmt(st: SpecStmt, env: crate::env::SpecEnv, fuel: nat) -> Result<
    (Val, crate::env::SpecEnv),
    Seq<char>,
>
    decreases fuel, stmt_size(st),
{
    match st {
        SpecStmt::BindingDef { name, value } => match crate::expr::spec_eval_expr(
            value,
            env,
            fuel,
        ) {
            Err(m) => Err(m),
            Ok(v) => Ok(
                (Val::Unit, crate::env::env_bind(env, name, crate::env::SpecNamed::Binding(v))),
            ),
        },
        SpecStmt::FuncDef { name, params, body } => Ok(
            (
                Val::Unit,
                crate::env::env_bind(
                    env,
                    name,
                    crate::env::SpecNamed::Func { params, body: *body },
                ),
            ),
        ),
        SpecStmt::Expr(e) => match crate::expr::spec_eval_expr(e, env, fuel) {
            Err(m) => Err(m),
            Ok(v) => Ok((v, env)),
        },
    }
}

impl Statement {
    /// The executable statement evaluator.
    pub(crate) fn eval_fueled(&self, env: &mut crate::env::Env, fuel: u64) -> (r: Result<
        Val,
        String,
    >)
        requires
            old(env).well_formed(),
        ensures
            (match (r, spec_eval_stmt(self@, old(env)@, fuel as nat)) {
                (Ok(v), Ok(p)) => v == p.0 && final(env)@ == p.1,
                (Err(m), Err(sm)) => m@ == sm && final(env)@ == old(env)@,
                _ => false,
            }),
            final(env).well_formed(),
        decreases fuel, stmt_size(self@), 1int,
    {
        match self {
            Statement::BindingDef(bd) => {
                match bd.eval_fueled(env, fuel) {
                    Err(m) => Err(m),
                    Ok(_) => Ok(Val::Unit),
                }
            },
            Statement::FuncDef(fd) => {
                match fd.eval(env) {
                    Err(m) => Err(m),
                    Ok(_) => Ok(Val::Unit),
                }
            },
            Statement::Expr(e) => e.eval_fueled(env, fuel),
        }
    }

    /// Evaluates the statement against a mutable environment.
    pub fn eval(&self, env: &mut crate::env::Env) -> (r: Result<Val, String>)
        requires
            old(env).well_formed(),
        ensures
            (match (r, spec_eval_stmt(self@, old(env)@, crate::EVAL_FUEL as nat)) {
                (Ok(v), Ok(p)) => v == p.0 && final(env)@ == p.1,
                (Err(m), Err(sm)) => m@ == sm && final(env)@ == old(env)@,
                _ => false,
            }),
            final(env).well_formed(),
    {
        self.eval_fueled(env, crate::EVAL_FUEL)
    }
}

impl Clone for Statement {
    /// A deep copy whose model is the model of the original.
    fn clone(&self) -> (r: Self)
        ensures
            r@ == self@,
        decreases stmt_size(self@), 0int,
    {
        match self {
            Statement::BindingDef(bd) => Statement::BindingDef(bd.clone()),
            Statement::FuncDef(fd) => Statement::FuncDef(fd.clone()),
            Statement::Expr(e) => Statement::Expr(e.clone()),
        }
    }
}

} // verus!
