//! A binding definition: `let`, a name, `=`, and a value expression.
use vstd::prelude::*;
use vstd::string::StringExecFns;

use crate::expr::{expr_size, Expr, SpecExpr};
use crate::utils;

verus! {

/// A binding definition: `let`, mandatory whitespace, the name, optional
/// whitespace, `=`, optional whitespace, the value expression. The forced
/// space after `let` keeps the keyword apart from the name.
pub open spec fn spec_binding_def(s: Seq<char>) -> Result<
    (Seq<char>, (Seq<char>, SpecExpr)),
    Seq<char>,
>
    decreases s.len(), 70int,
{
    match utils::spec_tag("let"@, s) {
        Err(m) => Err(m),
        Ok(s1) => match utils::spec_extract_whitespaces_1(s1) {
            Err(m) => Err(m),
            Ok((s2, _)) => match utils::spec_extract_id(s2) {
                Err(m) => Err(m),
                Ok((s3, name)) => {
                    proof {
                        reveal_strlit("let");
                        utils::lemma_ws_run_le(s1);
                        utils::lemma_id_cont_run_le(s2.skip(1));
                        utils::lemma_ws_run_le(s3);
                    }
                    let s4 = utils::spec_extract_whitespaces(s3).0;
                    match utils::spec_tag("="@, s4) {
                        Err(m) => Err(m),
                        Ok(s5) => {
                            proof {
                                reveal_strlit("=");
                                utils::lemma_ws_run_le(s5);
                            }
                            let s6 = utils::spec_extract_whitespaces(s5).0;
                            match crate::expr::spec_expr(s6) {
                                Err(m) => Err(m),
                                Ok((s7, value)) => Ok((s7, (name, value))),
                            }
                        },
                    }
                },
            },
        },
    }
}

#[derive(Debug, PartialEq)]
pub struct BindingDef {
    pub name: String,
    pub val: Expr,
}

impl View for BindingDef {
    type V = (Seq<char>, SpecExpr);

    open spec fn view(&self) -> (Seq<char>, SpecExpr) {
        (self.name@, self.val@)
    }
}

impl BindingDef {
    /// Parses a binding definition.
    pub fn new<'a>(s: &'a str) -> (r: Result<(&'a str, BindingDef), String>)
        ensures
            (match (r, spec_binding_def(s@)) {
                (Ok((rem, bd)), Ok(p)) => rem@ == p.0 && bd@ == p.1,
                (Err(m), Err(sm)) => m@ == sm,
                _ => false,
            }),
            r matches Ok(p) ==> p.0@.len() < s@.len(),
        decreases s@.len(), 70int,
    {
        proof {
            reveal_strlit("let");
            reveal_strlit("=");
        }
        match utils::tag("let", s) {
            Err(m) => Err(m),
            Ok(s1) => match utils::extract_whitespaces_1(s1) {
                Err(m) => Err(m),
                Ok((s2, _)) => match utils::extract_id(s2) {
                    Err(m) => Err(m),
                    Ok((s3, name)) => {
                        let (s4, _) = utils::extract_whitespaces(s3);
                        match utils::tag("=", s4) {
                            Err(m) => Err(m),
                            Ok(s5) => {
                                let (s6, _) = utils::extract_whitespaces(s5);
                                match Expr::new(s6) {
                                    Err(m) => Err(m),
                                    Ok((s7, val)) => Ok(
                                        (s7, BindingDef { name: String::from_str(name), val }),
                                    ),
                                }
                            },
                        }
                    },
                },
            },
        }
    }
}

impl BindingDef {
    /// The model of this binding definition as a statement.
    pub open spec fn stmt_model(&self) -> crate::statement::SpecStmt {
        crate::statement::SpecStmt::BindingDef { name: self.name@, value: self.val@ }
    }

    /// The executable evaluator: the value expression is evaluated in the
    /// current environment, and the result is stored there.
    pub(crate) fn eval_fueled(&self, env: &mut crate::env::Env, fuel: u64) -> (r: Result<
        (),
        String,
    >)
        requires
            old(env).well_formed(),
        ensures
            (match (r, crate::statement::spec_eval_stmt(
                self.stmt_model(),
                old(env)@,
                fuel as nat,
            )) {
                (Ok(v), Ok(p)) => final(env)@ == p.1,
                (Err(m), Err(sm)) => m@ == sm && final(env)@ == old(env)@,
                _ => false,
            }),
            final(env).well_formed(),
        decreases fuel, 1 + expr_size(self.val@), 0int,
    {
        match self.val.eval_fueled(env, fuel) {
            Err(m) => Err(m),
            Ok(v) => {
                env.add_binding(self.name.clone(), v);
                Ok(())
            },
        }
    }

    /// Evaluates the binding definition against a mutable environment.
    pub fn eval(&self, env: &mut crate::env::Env) -> (r: Result<(), String>)
        requires
            old(env).well_formed(),
        ensures
            (match (r, crate::statement::spec_eval_stmt(
                self.stmt_model(),
                old(env)@,
                crate::EVAL_FUEL as nat,
            )) {
                (Ok(v), Ok(p)) => final(env)@ == p.1,
                (Err(m), Err(sm)) => m@ == sm && final(env)@ == old(env)@,
                _ => false,
            }),
            final(env).well_formed(),
    {
        self.eval_fueled(env, crate::EVAL_FUEL)
    }
}

impl Clone for BindingDef {
    /// A deep copy whose model is the model of the original.
    fn clone(&self) -> (r: Self)
        ensures
            r@ == self@,
        decreases expr_size(self.val@), 1int,
    {
        BindingDef { name: self.name.clone(), val: self.val.clone() }
    }
}

} // verus!
