//! A braced sequence of statements introducing a child scope.
use vstd::prelude::*;

use crate::statement::{lemma_stmts_size_index, lemma_stmts_view_index, stmt_size, stmts_size,
    stmts_view, SpecStmt, Statement};
use crate::utils;

use crate::val::Val;

verus! {

/// A block: `{`, optional whitespace, statements, optional whitespace, `}`.
/// An empty block is valid.
pub open spec fn spec_block(s: Seq<char>) -> Result<(Seq<char>, Seq<SpecStmt>), Seq<char>>
    decreases s.len(), 20int,
{
    match utils::spec_tag("{"@, s) {
        Err(m) => Err(m),
        Ok(s1) => {
            proof {
                reveal_strlit("{");
                utils::lemma_ws_run_le(s1);
            }
            let s2 = utils::spec_extract_whitespaces(s1).0;
            let (s3, stmts) = crate::statement::spec_stmt_sequence(s2);
            let s4 = utils::spec_extract_whitespaces(s3).0;
            match utils::spec_tag("}"@, s4) {
                Err(m) => Err(m),
                Ok(s5) => Ok((s5, stmts)),
            }
        },
    }
}

#[derive(Debug, PartialEq)]
pub struct Block {
    pub statements: Vec<Statement>,
}

impl View for Block {
    type V = Seq<crate::statement::SpecStmt>;

    open spec fn view(&self) -> Seq<crate::statement::SpecStmt> {
        stmts_view(self.statements@)
    }
}

impl Block {
    /// Parses a block.
    pub fn new<'a>(s: &'a str) -> (r: Result<(&'a str, Block), String>)
        ensures
            (match (r, spec_block(s@)) {
                (Ok((rem, b)), Ok(p)) => rem@ == p.0 && b@ == p.1,
                (Err(m), Err(sm)) => m@ == sm,
                _ => false,
            }),
            r matches Ok(p) ==> p.0@.len() < s@.len(),
        decreases s@.len(), 20int,
    {
        proof {
            reveal_strlit("{");
            reveal_strlit("}");
        }
        match utils::tag("{", s) {
            Err(m) => Err(m),
            Ok(s1) => {
                let (s2, _) = utils::extract_whitespaces(s1);
                let (s3, statements) = crate::statement::statement_sequence(s2);
                let (s4, _) = utils::extract_whitespaces(s3);
                match utils::tag("}", s4) {
                    Err(m) => Err(m),
                    Ok(s5) => Ok((s5, Block { statements })),
                }
            },
        }
    }
}

/// What a non-empty run of statements yields in a child environment: every
/// statement but the last runs for its effect, and the last one's value is
/// the block's value. The first error aborts the whole run.
pub open spec fn spec_eval_block(
    ss: Seq<SpecStmt>,
    env: crate::env::SpecEnv,
    fuel: nat,
) -> Result<Val, Seq<char>>
    recommends
        ss.len() >= 1,
    decreases fuel, stmts_size(ss),
{
    if ss.len() == 0 {
        Ok(Val::Unit)
    } else {
        match crate::statement::spec_eval_stmt(ss[0], env, fuel) {
            Err(m) => Err(m),
            Ok((v, env1)) => if ss.len() == 1 {
                Ok(v)
            } else {
                spec_eval_block(ss.subrange(1, ss.len() as int), env1, fuel)
            },
        }
    }
}

impl Block {
    /// The executable block evaluator: an empty block is the unit value;
    /// otherwise the statements run in one fresh child scope.
    #[verifier::loop_isolation(false)]
    pub(crate) fn eval_fueled(&self, env: &crate::env::Env, fuel: u64) -> (r: Result<Val, String>)
        ensures
            (match (r, crate::expr::spec_eval_expr(
                crate::expr::SpecExpr::Block(self@),
                env@,
                fuel as nat,
            )) {
                (Ok(v), Ok(sv)) => v == sv,
                (Err(m), Err(sm)) => m@ == sm,
                _ => false,
            }),
        decreases fuel, 1 + stmts_size(self@), 0int,
    {
        let n = self.statements.len();
        proof {
            lemma_stmts_view_index(self.statements@);
        }
        if n == 0 {
            return Ok(Val::Unit);
        }
        let mut child = env.create_child();
        let ghost target = spec_eval_block(
            self@,
            env@.push(Map::empty()),
            fuel as nat,
        );
        proof {
            assert(self@.subrange(0, n as int) =~= self@);
        }
        let mut i: usize = 0;
        while i < n - 1
            invariant
                i < n,
                child.well_formed(),
                spec_eval_block(
                    self@.subrange(i as int, n as int),
                    child@,
                    fuel as nat,
                ) == target,
            decreases n - i,
        {
            proof {
                lemma_stmts_size_index(self@, i as int);
            }
            let ghost pre = self@.subrange(i as int, n as int);
            match self.statements[i].eval_fueled(&mut child, fuel) {
                Err(m) => {
                    return Err(m);
                },
                Ok(_) => {},
            }
            proof {
                assert(pre.subrange(1, pre.len() as int) =~= self@.subrange(i + 1, n as int));
            }
            i += 1;
        }
        proof {
            lemma_stmts_size_index(self@, i as int);
            assert(self@.subrange(i as int, n as int).len() == 1);
        }
        match self.statements[i].eval_fueled(&mut child, fuel) {
            Err(m) => Err(m),
            Ok(v) => Ok(v),
        }
    }

    /// Evaluates the block against an environment.
    pub fn eval(&self, env: &crate::env::Env) -> (r: Result<Val, String>)
        ensures
            (match (r, crate::expr::spec_eval_expr(
                crate::expr::SpecExpr::Block(self@),
                env@,
                crate::EVAL_FUEL as nat,
            )) {
                (Ok(v), Ok(sv)) => v == sv,
                (Err(m), Err(sm)) => m@ == sm,
                _ => false,
            }),
    {
        self.eval_fueled(env, crate::EVAL_FUEL)
    }
}

impl Clone for Block {
    /// A deep copy whose model is the model of the original.
    fn clone(&self) -> (r: Self)
        ensures
            r@ == self@,
        decreases stmts_size(self@), 1int,
    {
        let mut statements: Vec<Statement> = Vec::new();
        let n = self.statements.len();
        let mut i: usize = 0;
        while i < n
            invariant
                i <= n,
                n == self.statements@.len(),
                statements@.len() == i,
                forall|j: int| 0 <= j < i ==> statements@[j]@ == self.statements@[j]@,
            decreases n - i,
        {
            proof {
                lemma_stmts_view_index(self.statements@);
                lemma_stmts_size_index(stmts_view(self.statements@), i as int);
            }
            statements.push(self.statements[i].clone());
            i += 1;
        }
        proof {
            lemma_stmts_view_index(self.statements@);
            lemma_stmts_view_index(statements@);
            assert(stmts_view(statements@) =~= stmts_view(self.statements@));
        }
        Block { statements }
    }
}

} // verus!
