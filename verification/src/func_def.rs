//! A function definition: a name, parameter names, and a single statement as
//! the body. Defining a function does not evaluate its body.
use vstd::prelude::*;
use vstd::string::StringExecFns;

use crate::statement::{stmt_size, SpecStmt, Statement};
use crate::utils;
use crate::utils::{lemma_strings_view_index, strings_view};

verus! {

/// Parameter names taken while they parse, whitespace consumed after each
/// one; this never fails.
pub open spec fn spec_param_sequence(s: Seq<char>) -> (Seq<char>, Seq<Seq<char>>)
    decreases s.len(),
{
    match utils::spec_extract_id(s) {
        Err(_) => (s, Seq::empty()),
        Ok((s1, id)) => {
            proof {
                utils::lemma_id_cont_run_le(s.skip(1));
                utils::lemma_ws_run_le(s1);
            }
            let s2 = utils::spec_extract_whitespaces(s1).0;
            let (s3, rest) = spec_param_sequence(s2);
            (s3, seq![id] + rest)
        },
    }
}

pub proof fn lemma_param_sequence_le(s: Seq<char>)
    ensures
        spec_param_sequence(s).0.len() <= s.len(),
    decreases s.len(),
{
    match utils::spec_extract_id(s) {
        Err(_) => {},
        Ok((s1, id)) => {
            utils::lemma_id_cont_run_le(s.skip(1));
            utils::lemma_ws_run_le(s1);
            let s2 = utils::spec_extract_whitespaces(s1).0;
            lemma_param_sequence_le(s2);
        },
    }
}

/// A function definition: `fn`, mandatory whitespace, the name, optional
/// whitespace, parameter names, `=>`, optional whitespace, one statement as
/// the body.
pub open spec fn spec_func_def(s: Seq<char>) -> Result<
    (Seq<char>, (Seq<char>, Seq<Seq<char>>, SpecStmt)),
    Seq<char>,
>
    decreases s.len(), 70int,
{
    match utils::spec_tag("fn"@, s) {
        Err(m) => Err(m),
        Ok(s1) => match utils::spec_extract_whitespaces_1(s1) {
            Err(m) => Err(m),
            Ok((s2, _)) => match utils::spec_extract_id(s2) {
                Err(m) => Err(m),
                Ok((s3, name)) => {
                    proof {
                        reveal_strlit("fn");
                        utils::lemma_ws_run_le(s1);
                        utils::lemma_id_cont_run_le(s2.skip(1));
                        utils::lemma_ws_run_le(s3);
                    }
                    let s4 = utils::spec_extract_whitespaces(s3).0;
                    let (s5, params) = spec_param_sequence(s4);
                    match utils::spec_tag("=>"@, s5) {
                        Err(m) => Err(m),
                        Ok(s6) => {
                            proof {
                                lemma_param_sequence_le(s4);
                                reveal_strlit("=>");
                                utils::lemma_ws_run_le(s6);
                            }
                            let s7 = utils::spec_extract_whitespaces(s6).0;
                            match crate::statement::spec_statement(s7) {
                                Err(m) => Err(m),
                                Ok((s8, body)) => Ok((s8, (name, params, body))),
                            }
                        },
                    }
                },
            },
        },
    }
}

#[derive(Debug, PartialEq)]
pub struct FuncDef {
    pub name: String,
    pub params: Vec<String>,
    pub body: Box<Statement>,
}

impl View for FuncDef {
    type V = (Seq<char>, Seq<Seq<char>>, SpecStmt);

    open spec fn view(&self) -> (Seq<char>, Seq<Seq<char>>, SpecStmt) {
        (self.name@, strings_view(self.params@), (*self.body)@)
    }
}

/// The executable parameter-name sequence.
fn param_sequence<'a>(s: &'a str) -> (r: (&'a str, Vec<String>))
    ensures
        r.0@ == spec_param_sequence(s@).0,
        strings_view(r.1@) == spec_param_sequence(s@).1,
        r.0@.len() <= s@.len(),
    decreases s@.len(),
{
    match utils::extract_id(s) {
        Err(_) => (s, Vec::new()),
        Ok((s1, id)) => {
            let (s2, _) = utils::extract_whitespaces(s1);
            let (s3, mut rest) = param_sequence(s2);
            let ghost rest0 = rest@;
            let mut items: Vec<String> = Vec::new();
            items.push(String::from_str(id));
            items.append(&mut rest);
            proof {
                assert(items@.subrange(1, items@.len() as int) =~= rest0);
                assert(strings_view(items@) =~= seq![id@] + spec_param_sequence(s2@).1);
            }
            (s3, items)
        },
    }
}

impl FuncDef {
    /// Parses a function definition.
    pub fn new<'a>(s: &'a str) -> (r: Result<(&'a str, FuncDef), String>)
        ensures
            (match (r, spec_func_def(s@)) {
                (Ok((rem, fd)), Ok(p)) => rem@ == p.0 && fd@ == p.1,
                (Err(m), Err(sm)) => m@ == sm,
                _ => false,
            }),
            r matches Ok(p) ==> p.0@.len() < s@.len(),
        decreases s@.len(), 70int,
    {
        proof {
            reveal_strlit("fn");
            reveal_strlit("=>");
        }
        match utils::tag("fn", s) {
            Err(m) => Err(m),
            Ok(s1) => match utils::extract_whitespaces_1(s1) {
                Err(m) => Err(m),
                Ok((s2, _)) => match utils::extract_id(s2) {
                    Err(m) => Err(m),
                    Ok((s3, name)) => {
                        let (s4, _) = utils::extract_whitespaces(s3);
                        let (s5, params) = param_sequence(s4);
                        match utils::tag("=>", s5) {
                            Err(m) => Err(m),
                            Ok(s6) => {
                                let (s7, _) = utils::extract_whitespaces(s6);
                                match Statement::new(s7) {
                                    Err(m) => Err(m),
                                    Ok((s8, body)) => Ok(
                                        (
                                            s8,
                                            FuncDef {
                                                name: String::from_str(name),
                                                params,
                                                body: Box::new(body),
                                            },
                                        ),
                                    ),
                                }
                            },
                        }
                    },
                },
            },
        }
    }
}

/// A deep copy of a list of names whose views are unchanged.
pub(crate) fn clone_names(names: &Vec<String>) -> (r: Vec<String>)
    ensures
        r@.len() == names@.len(),
        forall|j: int| 0 <= j < names@.len() ==> r@[j]@ == names@[j]@,
        strings_view(r@) == strings_view(names@),
{
    let mut r: Vec<String> = Vec::new();
    let n = names.len();
    let mut i: usize = 0;
    while i < n
        invariant
            i <= n,
            n == names@.len(),
            r@.len() == i,
            forall|j: int| 0 <= j < i ==> r@[j]@ == names@[j]@,
        decreases n - i,
    {
        r.push(names[i].clone());
        i += 1;
    }
    proof {
        lemma_strings_view_index(names@);
        lemma_strings_view_index(r@);
        assert(strings_view(r@) =~= strings_view(names@));
    }
    r
}

impl FuncDef {
    /// Registers the definition in the current environment; the body is not
    /// evaluated at definition time.
    pub fn eval(&self, env: &mut crate::env::Env) -> (r: Result<(), String>)
        requires
            old(env).well_formed(),
        ensures
            r is Ok,
            final(env)@ == crate::env::env_bind(
                old(env)@,
                self.name@,
                crate::env::SpecNamed::Func {
                    params: strings_view(self.params@),
                    body: (*self.body)@,
                },
            ),
            final(env).well_formed(),
    {
        env.add_func(self.name.clone(), clone_names(&self.params), (&*self.body).clone());
        Ok(())
    }
}

impl Clone for FuncDef {
    /// A deep copy whose model is the model of the original.
    fn clone(&self) -> (r: Self)
        ensures
            r@ == self@,
        decreases stmt_size((*self.body)@), 1int,
    {
        FuncDef {
            name: self.name.clone(),
            params: clone_names(&self.params),
            body: Box::new((&*self.body).clone()),
        }
    }
}

} // verus!
