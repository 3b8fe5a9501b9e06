//! A bare identifier that refers to a binding, or, failing that, to a
//! zero-argument function of the same name.
use vstd::prelude::*;
use vstd::string::StringExecFns;

use crate::val::Val;

verus! {

#[derive(Debug, PartialEq)]
pub struct BindingUsage {
    pub name: String,
}

impl BindingUsage {
    /// Parses a bare identifier.
    pub fn new<'a>(s: &'a str) -> (r: Result<(&'a str, BindingUsage), String>)
        ensures
            (match (r, crate::utils::spec_extract_id(s@)) {
                (Ok((rem, b)), Ok(p)) => rem@ == p.0 && b.name@ == p.1,
                (Err(m), Err(sm)) => m@ == sm,
                _ => false,
            }),
            r matches Ok(p) ==> p.0@.len() < s@.len(),
    {
        match crate::utils::extract_id(s) {
            Ok((rem, name)) => Ok((rem, BindingUsage { name: String::from_str(name) })),
            Err(m) => Err(m),
        }
    }
}

impl BindingUsage {
    /// The executable evaluator: the name is looked up as a binding; a name
    /// that resolves to a function instead is retried as a zero-argument
    /// call, and only then does the original lookup failure surface.
    pub(crate) fn eval_fueled(&self, env: &crate::env::Env, fuel: u64) -> (r: Result<Val, String>)
        ensures
            (match (r, crate::expr::spec_eval_expr(
                crate::expr::SpecExpr::BindingUsage(self.name@),
                env@,
                fuel as nat,
            )) {
                (Ok(v), Ok(sv)) => v == sv,
                (Err(m), Err(sm)) => m@ == sm,
                _ => false,
            }),
        decreases fuel, 1nat, 0int,
    {
        match env.get_binding(self.name.as_str()) {
            Ok(v) => Ok(v),
            Err(err_msg) => {
                match env.get_func(self.name.as_str()) {
                    Ok((params, body)) => {
                        proof {
                            crate::utils::lemma_strings_view_index(params@);
                        }
                        if params.len() != 0 {
                            Err(crate::func_call::arity_error(&self.name, params.len(), 0))
                        } else if fuel == 0 {
                            Err(String::from_str("Recursion limit reached"))
                        } else {
                            let mut child = env.create_child();
                            body.eval_fueled(&mut child, fuel - 1)
                        }
                    },
                    Err(_) => Err(err_msg),
                }
            },
        }
    }

    /// Evaluates the binding usage against an environment.
    pub fn eval(&self, env: &crate::env::Env) -> (r: Result<Val, String>)
        ensures
            (match (r, crate::expr::spec_eval_expr(
                crate::expr::SpecExpr::BindingUsage(self.name@),
                env@,
                crate::EVAL_FUEL as nat,
            )) {
                (Ok(v), Ok(sv)) => v == sv,
                (Err(m), Err(sm)) => m@ == sm,
                _ => false,
            }),
    {
        self.eval_fueled(env, crate::EVAL_FUEL)
    }
}

impl Clone for BindingUsage {
    fn clone(&self) -> (r: Self)
        ensures
            r.name@ == self.name@,
    {
        BindingUsage { name: self.name.clone() }
    }
}

} // verus!
