//! A function call: a callee name followed by space-separated argument
//! expressions.
use vstd::prelude::*;
use vstd::string::StringExecFns;

use crate::expr::{exprs_size, exprs_view, expr_size, lemma_exprs_size_index,
    lemma_exprs_view_index, Expr, SpecExpr};
use crate::utils;

use crate::val::Val;

verus! {

/// Space-separated argument expressions: at least one, and the remainder
/// stands at the point of the last success, so a trailing separator that is
/// not followed by an argument is not consumed.
pub open spec fn spec_call_args(s: Seq<char>) -> Result<(Seq<char>, Seq<SpecExpr>), Seq<char>>
    decreases s.len(), 90int,
{
    match crate::expr::spec_expr(s) {
        Err(m) => Err(m),
        Ok((s1, first)) => {
            let s2 = utils::spec_extract_spaces(s1).0;
            if s2.len() < s.len() {
                match spec_call_args(s2) {
                    Ok((s3, rest)) => Ok((s3, seq![first] + rest)),
                    Err(_) => Ok((s1, seq![first])),
                }
            } else {
                // never reached: an argument always consumes input
                Ok((s1, seq![first]))
            }
        },
    }
}

/// A function call: a callee identifier, spaces, then at least one argument.
pub open spec fn spec_func_call(s: Seq<char>) -> Result<
    (Seq<char>, (Seq<char>, Seq<SpecExpr>)),
    Seq<char>,
>
    decreases s.len(), 30int,
{
    match utils::spec_extract_id(s) {
        Err(m) => Err(m),
        Ok((s1, callee)) => {
            proof {
                utils::lemma_id_cont_run_le(s.skip(1));
                utils::lemma_space_run_le(s1);
            }
            let s2 = utils::spec_extract_spaces(s1).0;
            match spec_call_args(s2) {
                Err(m) => Err(m),
                Ok((s3, args)) => Ok((s3, (callee, args))),
            }
        },
    }
}

#[derive(Debug, PartialEq)]
pub struct FuncCall {
    pub callee: String,
    pub params: Vec<Expr>,
}

impl View for FuncCall {
    type V = (Seq<char>, Seq<SpecExpr>);

    open spec fn view(&self) -> (Seq<char>, Seq<SpecExpr>) {
        (self.callee@, exprs_view(self.params@))
    }
}

/// The executable argument sequence.
fn call_args<'a>(s: &'a str) -> (r: Result<(&'a str, Vec<Expr>), String>)
    ensures
        (match (r, spec_call_args(s@)) {
            (Ok((rem, es)), Ok(p)) => rem@ == p.0 && exprs_view(es@) == p.1,
            (Err(m), Err(sm)) => m@ == sm,
            _ => false,
        }),
        r matches Ok(p) ==> p.0@.len() < s@.len(),
    decreases s@.len(), 90int,
{
    match Expr::new(s) {
        Err(m) => Err(m),
        Ok((s1, first)) => {
            let (s2, _) = utils::extract_spaces(s1);
            let ghost first0 = first@;
            match call_args(s2) {
                Ok((s3, mut rest)) => {
                    let ghost rest0 = rest@;
                    let mut items: Vec<Expr> = Vec::new();
                    items.push(first);
                    items.append(&mut rest);
                    proof {
                        assert(items@.subrange(1, items@.len() as int) =~= rest0);
                        assert(exprs_view(items@) =~= seq![first0] + spec_call_args(s2@)->Ok_0.1);
                    }
                    Ok((s3, items))
                },
                Err(_) => {
                    let mut items: Vec<Expr> = Vec::new();
                    items.push(first);
                    proof {
                        assert(items@.len() == 1);
                        assert(crate::expr::expr_view(items@[0]) == first0);
                        assert(items@.subrange(1, items@.len() as int) =~= Seq::<Expr>::empty());
                        assert(exprs_view(items@.subrange(1, items@.len() as int)) =~= Seq::<
                            SpecExpr,
                        >::empty());
                        assert(exprs_view(items@) =~= seq![first0]);
                    }
                    Ok((s1, items))
                },
            }
        },
    }
}

impl FuncCall {
    /// Parses a function call.
    pub fn new<'a>(s: &'a str) -> (r: Result<(&'a str, FuncCall), String>)
        ensures
            (match (r, spec_func_call(s@)) {
                (Ok((rem, fc)), Ok(p)) => rem@ == p.0 && fc@ == p.1,
                (Err(m), Err(sm)) => m@ == sm,
                _ => false,
            }),
            r matches Ok(p) ==> p.0@.len() < s@.len(),
        decreases s@.len(), 30int,
    {
        match utils::extract_id(s) {
            Err(m) => Err(m),
            Ok((s1, callee)) => {
                let (s2, _) = utils::extract_spaces(s1);
                match call_args(s2) {
                    Err(m) => Err(m),
                    Ok((s3, params)) => Ok(
                        (s3, FuncCall { callee: String::from_str(callee), params }),
                    ),
                }
            },
        }
    }
}

// ---------------------------------------------------------------------------
// Evaluation
// ---------------------------------------------------------------------------

pub open spec fn arity_msg(callee: Seq<char>, expected: nat, received: nat) -> Seq<char> {
    "Function `"@ + callee + "` expected "@ + utils::dec_digits(expected)
        + " args but received "@ + utils::dec_digits(received)
}

/// Builds the arity-mismatch message naming the function, the declared
/// parameter count, and the received argument count.
pub(crate) fn arity_error(callee: &String, expected: usize, received: usize) -> (r: String)
    ensures
        r@ == arity_msg(callee@, expected as nat, received as nat),
{
    String::from_str("Function `").concat(callee.as_str()).concat("` expected ").concat(
        utils::num_to_string(expected as u64).as_str(),
    ).concat(" args but received ").concat(utils::num_to_string(received as u64).as_str())
}

/// Binding evaluated arguments to parameter names, one after the other, in
/// the child environment itself: an argument expression already sees the
/// parameters bound before it.
pub open spec fn spec_eval_args(
    params: Seq<Seq<char>>,
    args: Seq<SpecExpr>,
    env: crate::env::SpecEnv,
    fuel: nat,
) -> Result<crate::env::SpecEnv, Seq<char>>
    recommends
        params.len() == args.len(),
    decreases fuel, exprs_size(args),
{
    if args.len() == 0 {
        Ok(env)
    } else {
        match crate::expr::spec_eval_expr(args[0], env, fuel) {
            Err(m) => Err(m),
            Ok(v) => spec_eval_args(
                params.subrange(1, params.len() as int),
                args.subrange(1, args.len() as int),
                crate::env::env_bind(env, params[0], crate::env::SpecNamed::Binding(v)),
                fuel,
            ),
        }
    }
}

impl FuncCall {
    /// The executable evaluator: the callee is looked up in the caller's
    /// environment, arity is checked, the arguments are evaluated and bound
    /// in one child environment, and the body runs there.
    #[verifier::loop_isolation(false)]
    pub(crate) fn eval_fueled(&self, env: &crate::env::Env, fuel: u64) -> (r: Result<Val, String>)
        ensures
            (match (r, crate::expr::spec_eval_expr(
                crate::expr::SpecExpr::FuncCall {
                    callee: self.callee@,
                    args: exprs_view(self.params@),
                },
                env@,
                fuel as nat,
            )) {
                (Ok(v), Ok(sv)) => v == sv,
                (Err(m), Err(sm)) => m@ == sm,
                _ => false,
            }),
        decreases fuel, 1 + exprs_size(exprs_view(self.params@)), 0int,
    {
        let mut child_env = env.create_child();
        match env.get_func(self.callee.as_str()) {
            Err(m) => Err(m),
            Ok((param_names, body)) => {
                proof {
                    crate::utils::lemma_strings_view_index(param_names@);
                    lemma_exprs_view_index(self.params@);
                }
                let n = self.params.len();
                if param_names.len() != n {
                    return Err(arity_error(&self.callee, param_names.len(), n));
                }
                if fuel == 0 {
                    return Err(String::from_str("Recursion limit reached"));
                }
                let ghost pv = crate::utils::strings_view(param_names@);
                let ghost av = exprs_view(self.params@);
                let ghost target = spec_eval_args(pv, av, env@.push(Map::empty()), fuel as nat);
                proof {
                    assert(pv.subrange(0, pv.len() as int) =~= pv);
                    assert(av.subrange(0, av.len() as int) =~= av);
                }
                let mut i: usize = 0;
                while i < n
                    invariant
                        i <= n,
                        child_env.well_formed(),
                        spec_eval_args(
                            pv.subrange(i as int, n as int),
                            av.subrange(i as int, n as int),
                            child_env@,
                            fuel as nat,
                        ) == target,
                    decreases n - i,
                {
                    proof {
                        lemma_exprs_size_index(av, i as int);
                    }
                    let ghost pre_p = pv.subrange(i as int, n as int);
                    let ghost pre_a = av.subrange(i as int, n as int);
                    let param_val = match self.params[i].eval_fueled(&child_env, fuel) {
                        Err(m) => {
                            return Err(m);
                        },
                        Ok(v) => v,
                    };
                    child_env.add_binding(param_names[i].clone(), param_val);
                    proof {
                        assert(pre_p.subrange(1, pre_p.len() as int) =~= pv.subrange(
                            i + 1,
                            n as int,
                        ));
                        assert(pre_a.subrange(1, pre_a.len() as int) =~= av.subrange(
                            i + 1,
                            n as int,
                        ));
                    }
                    i += 1;
                }
                proof {
                    assert(pv.subrange(n as int, n as int) =~= Seq::<Seq<char>>::empty());
                    assert(av.subrange(n as int, n as int) =~= Seq::<SpecExpr>::empty());
                }
                body.eval_fueled(&mut child_env, fuel - 1)
            },
        }
    }

    /// Evaluates the call against the caller's environment.
    pub fn eval(&self, env: &crate::env::Env) -> (r: Result<Val, String>)
        ensures
            (match (r, crate::expr::spec_eval_expr(
                crate::expr::SpecExpr::FuncCall {
                    callee: self.callee@,
                    args: exprs_view(self.params@),
                },
                env@,
                crate::EVAL_FUEL as nat,
            )) {
                (Ok(v), Ok(sv)) => v == sv,
                (Err(m), Err(sm)) => m@ == sm,
                _ => false,
            }),
    {
        self.eval_fueled(env, crate::EVAL_FUEL)
    }
}

impl Clone for FuncCall {
    /// A deep copy whose model is the model of the original.
    fn clone(&self) -> (r: Self)
        ensures
            r@ == self@,
        decreases exprs_size(exprs_view(self.params@)), 1int,
    {
        let callee = self.callee.clone();
        let mut params: Vec<Expr> = Vec::new();
        let n = self.params.len();
        let mut i: usize = 0;
        while i < n
            invariant
                i <= n,
                n == self.params@.len(),
                params@.len() == i,
                forall|j: int| 0 <= j < i ==> params@[j]@ == self.params@[j]@,
            decreases n - i,
        {
            proof {
                lemma_exprs_view_index(self.params@);
                lemma_exprs_size_index(exprs_view(self.params@), i as int);
            }
            params.push(self.params[i].clone());
            i += 1;
        }
        proof {
            lemma_exprs_view_index(self.params@);
            lemma_exprs_view_index(params@);
            assert(exprs_view(params@) =~= exprs_view(self.params@));
        }
        FuncCall { callee, params }
    }
}

} // verus!
