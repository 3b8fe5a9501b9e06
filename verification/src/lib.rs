//! A small expression-and-binding language: a recursive-descent parser over
//! character slices and a tree-walking evaluator against a chained lexical
//! environment. Each parser and the evaluator are proved to agree exactly
//! with their mathematical counterparts over sequences of characters.
use vstd::prelude::*;
use vstd::string::StringExecFns;

pub mod binding_def;
pub mod env;
pub mod expr;
pub mod func_call;
pub mod func_def;
pub mod laws;
pub mod statement;
pub mod utils;
pub mod val;

pub use env::Env;
pub use val::Val;

verus! {

/// How many nested function applications evaluation allows before it stops
/// with an error; structural recursion into subexpressions is not limited.
pub const EVAL_FUEL: u64 = 256;

pub open spec fn not_fully_consumed_msg() -> Seq<char> {
    "Input was not fully consumed"@
}

/// A complete parse: one statement that consumes the whole input.
pub open spec fn spec_parse(s: Seq<char>) -> Result<statement::SpecStmt, Seq<char>> {
    match statement::spec_statement(s) {
        Err(m) => Err(m),
        Ok((rem, st)) => if rem.len() == 0 {
            Ok(st)
        } else {
            Err(not_fully_consumed_msg())
        },
    }
}

#[derive(Debug)]
pub struct Parse(statement::Statement);

impl View for Parse {
    type V = statement::SpecStmt;

    closed spec fn view(&self) -> statement::SpecStmt {
        self.0@
    }
}

impl Parse {
    /// Evaluates the parsed statement against a mutable top-level
    /// environment.
    pub fn eval(&self, env: &mut Env) -> (r: Result<Val, String>)
        requires
            old(env).well_formed(),
        ensures
            (match (r, statement::spec_eval_stmt(self@, old(env)@, EVAL_FUEL as nat)) {
                (Ok(v), Ok(p)) => v == p.0 && final(env)@ == p.1,
                (Err(m), Err(sm)) => m@ == sm && final(env)@ == old(env)@,
                _ => false,
            }),
            final(env).well_formed(),
    {
        self.0.eval(env)
    }
}

/// Parses one complete textual statement; trailing unconsumed characters
/// after a successful partial parse are an error of their own.
pub fn parse(s: &str) -> (r: Result<Parse, String>)
    ensures
        (match (r, spec_parse(s@)) {
            (Ok(p), Ok(st)) => p@ == st,
            (Err(m), Err(sm)) => m@ == sm,
            _ => false,
        }),
{
    match statement::Statement::new(s) {
        Err(m) => Err(m),
        Ok((rem, stmt)) => {
            if rem.is_empty() {
                Ok(Parse(stmt))
            } else {
                Err(String::from_str("Input was not fully consumed"))
            }
        },
    }
}

} // verus!
