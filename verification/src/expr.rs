//! Expressions: number literals, flat binary operations, binding usages,
//! function calls and blocks.
pub mod binding_usage;
pub mod block;

use vstd::prelude::*;
use vstd::string::StrSliceExecFns;
use vstd::string::StringExecFns;

use crate::func_call::FuncCall;
use crate::statement::{stmts_size, stmts_view, SpecStmt};
use crate::utils;

pub use binding_usage::BindingUsage;
pub use block::Block;

use crate::val::Val;

verus! {

broadcast use vstd::seq::axiom_seq_index_decreases, vstd::seq::axiom_seq_subrange_decreases;

/// The mathematical model of an expression.
#[verifier::ext_equal]
pub enum SpecExpr {
    Number(int),
    Operation { lhs: Box<SpecExpr>, rhs: Box<SpecExpr>, op: Op },
    BindingUsage(Seq<char>),
    Block(Seq<SpecStmt>),
    FuncCall { callee: Seq<char>, args: Seq<SpecExpr> },
}

#[derive(Clone, Copy, Debug, PartialEq, Eq, Structural)]
pub struct Number(pub i32);

#[derive(Clone, Copy, Debug, PartialEq, Eq, Structural)]
pub enum Op {
    Add,
    Sub,
    Mul,
    Div,
    DivisibleBy,
}

#[derive(Debug, PartialEq)]
pub enum Expr {
    Number(Number),
    Operation { lhs: Box<Expr>, rhs: Box<Expr>, op: Op },
    BindingUsage(BindingUsage),
    Block(Block),
    FuncCall(FuncCall),
}

impl View for Number {
    type V = int;

    open spec fn view(&self) -> int {
        self.0 as int
    }
}

pub open spec fn expr_view(e: Expr) -> SpecExpr
    decreases e,
{
    match e {
        Expr::Number(n) => SpecExpr::Number(n.0 as int),
        Expr::Operation { lhs, rhs, op } => SpecExpr::Operation {
            lhs: Box::new(expr_view(*lhs)),
            rhs: Box::new(expr_view(*rhs)),
            op,
        },
        Expr::BindingUsage(b) => SpecExpr::BindingUsage(b.name@),
        Expr::Block(b) => SpecExpr::Block(stmts_view(b.statements@)),
        Expr::FuncCall(fc) => SpecExpr::FuncCall {
            callee: fc.callee@,
            args: exprs_view(fc.params@),
        },
    }
}

pub open spec fn exprs_view(es: Seq<Expr>) -> Seq<SpecExpr>
    decreases es,
{
    if es.len() == 0 {
        Seq::empty()
    } else {
        seq![expr_view(es[0])] + exprs_view(es.subrange(1, es.len() as int))
    }
}

impl View for Expr {
    type V = SpecExpr;

    open spec fn view(&self) -> SpecExpr {
        expr_view(*self)
    }
}

pub proof fn lemma_exprs_view_index(es: Seq<Expr>)
    ensures
        exprs_view(es).len() == es.len(),
        forall|i: int| 0 <= i < es.len() ==> exprs_view(es)[i] == es[i]@,
    decreases es.len(),
{
    if es.len() != 0 {
        lemma_exprs_view_index(es.subrange(1, es.len() as int));
        assert forall|i: int| 0 <= i < es.len() implies exprs_view(es)[i] == es[i]@ by {
            if i > 0 {
                assert(exprs_view(es.subrange(1, es.len() as int))[i - 1] == es.subrange(
                    1,
                    es.len() as int,
                )[i - 1]@);
            }
        }
    }
}

/// The number of nodes in an expression; every expression has at least one.
pub open spec fn expr_size(e: SpecExpr) -> nat
    decreases e,
{
    match e {
        SpecExpr::Number(_) => 1,
        SpecExpr::Operation { lhs, rhs, op } => 1 + expr_size(*lhs) + expr_size(*rhs),
        SpecExpr::BindingUsage(_) => 1,
        SpecExpr::Block(ss) => 1 + stmts_size(ss),
        SpecExpr::FuncCall { callee, args } => 1 + exprs_size(args),
    }
}

pub open spec fn exprs_size(es: Seq<SpecExpr>) -> nat
    decreases es,
{
    if es.len() == 0 {
        0
    } else {
        1 + expr_size(es[0]) + exprs_size(es.subrange(1, es.len() as int))
    }
}

pub proof fn lemma_exprs_size_index(es: Seq<SpecExpr>, i: int)
    requires
        0 <= i < es.len(),
    ensures
        expr_size(es[i]) < exprs_size(es),
    decreases es.len(),
{
    if i > 0 {
        lemma_exprs_size_index(es.subrange(1, es.len() as int), i - 1);
        assert(es.subrange(1, es.len() as int)[i - 1] == es[i]);
    }
}

// ---------------------------------------------------------------------------
// Parsing
// ---------------------------------------------------------------------------

/// The value of a digit character.
pub open spec fn digit_val(c: char) -> nat {
    if c as u32 >= 48 {
        (c as u32 - 48) as nat
    } else {
        0
    }
}

/// The value of a run of digit characters, most significant first.
pub open spec fn digits_val(ds: Seq<char>) -> nat
    decreases ds.len(),
{
    if ds.len() == 0 {
        0
    } else {
        digits_val(ds.drop_last()) * 10 + digit_val(ds.last())
    }
}

/// A prefix of a digit run never exceeds the whole run's value.
pub proof fn lemma_digits_val_take_le(ds: Seq<char>, k: int)
    requires
        0 <= k <= ds.len(),
    ensures
        digits_val(ds.take(k)) <= digits_val(ds),
    decreases ds.len(),
{
    if k < ds.len() {
        assert(ds.drop_last().take(k) =~= ds.take(k));
        lemma_digits_val_take_le(ds.drop_last(), k);
    } else {
        assert(ds.take(k) =~= ds);
    }
}

/// Reading back the decimal rendering of a number yields the number.
pub proof fn lemma_digits_val_dec(n: nat)
    ensures
        digits_val(utils::dec_digits(n)) == n,
    decreases n,
{
    if n < 10 {
        assert(utils::dec_digits(n).drop_last() =~= Seq::<char>::empty());
        assert(digits_val(Seq::<char>::empty()) == 0);
        assert(utils::dec_digits(n).last() == utils::digit_char(n));
        assert(digit_val(utils::digit_char(n)) == n);
    } else {
        lemma_digits_val_dec(n / 10);
        let whole = utils::dec_digits(n / 10) + seq![utils::digit_char(n % 10)];
        assert(whole.drop_last() =~= utils::dec_digits(n / 10));
        assert(whole.last() == utils::digit_char(n % 10));
    }
}

/// A number literal standing before anything that is not a digit parses to
/// its value, leaving exactly the rest.
pub proof fn lemma_spec_number_concat(n: nat, rest: Seq<char>)
    requires
        n <= 0x7fff_ffff,
        rest.len() > 0 ==> !utils::spec_is_digit(rest[0]),
    ensures
        spec_number(utils::dec_digits(n) + rest) matches Ok(p) && p.0 == rest && p.1 == n,
{
    let ds = utils::dec_digits(n);
    let s = ds + rest;
    utils::lemma_dec_digits_are_digits(n);
    utils::lemma_digits_run_concat(ds, rest);
    assert(s.skip(ds.len() as int) =~= rest);
    assert(s.take(ds.len() as int) =~= ds);
    lemma_digits_val_dec(n);
}

pub open spec fn number_too_large_msg(ds: Seq<char>) -> Seq<char> {
    "Number too large: `"@ + ds + "`"@
}

/// A number literal: a maximal digit run whose value fits the value type.
pub open spec fn spec_number(s: Seq<char>) -> Result<(Seq<char>, int), Seq<char>> {
    match utils::spec_extract_digits(s) {
        Err(m) => Err(m),
        Ok((rem, ds)) => if digits_val(ds) <= 0x7fff_ffff {
            Ok((rem, digits_val(ds) as int))
        } else {
            Err(number_too_large_msg(ds))
        },
    }
}

impl Number {
    /// Parses a number literal.
    #[verifier::loop_isolation(false)]
    pub fn new<'a>(s: &'a str) -> (r: Result<(&'a str, Number), String>)
        ensures
            (match (r, spec_number(s@)) {
                (Ok((rem, num)), Ok(p)) => rem@ == p.0 && num@ == p.1,
                (Err(m), Err(sm)) => m@ == sm,
                _ => false,
            }),
            r matches Ok(p) ==> p.0@.len() < s@.len(),
    {
        match utils::extract_digits(s) {
            Err(m) => Err(m),
            Ok((rem, ds)) => {
                let n = ds.unicode_len();
                let mut acc: u64 = 0;
                let mut i: usize = 0;
                while i < n
                    invariant
                        i <= n,
                        n == ds@.len(),
                        forall|j: int| 0 <= j < n ==> utils::spec_is_digit(ds@[j]),
                        acc == digits_val(ds@.take(i as int)),
                        acc <= 0x7fff_ffff,
                    decreases n - i,
                {
                    let c = ds.get_char(i);
                    let d: u64 = ((c as u32) - 48) as u64;
                    let new_acc: u64 = acc * 10 + d;
                    proof {
                        assert(ds@.take(i + 1).drop_last() =~= ds@.take(i as int));
                        assert(ds@.take(i + 1).last() == ds@[i as int]);
                    }
                    if new_acc > 0x7fff_ffff {
                        proof {
                            assert(ds@.take(i + 1).len() == i + 1);
                            assert(digits_val(ds@.take(i + 1)) == digits_val(ds@.take(i as int))
                                * 10 + digit_val(ds@[i as int]));
                            assert(digits_val(ds@.take(i + 1)) == new_acc);
                            lemma_digits_val_take_le(ds@, i + 1);
                            assert(digits_val(ds@) > 0x7fff_ffff);
                        }
                        return Err(
                            String::from_str("Number too large: `").concat(ds).concat("`"),
                        );
                    }
                    acc = new_acc;
                    i += 1;
                }
                proof {
                    assert(ds@.take(n as int) =~= ds@);
                }
                Ok((rem, Number(acc as i32)))
            },
        }
    }
}

/// An operator literal, tried in a fixed order.
pub open spec fn spec_op(s: Seq<char>) -> Result<(Seq<char>, Op), Seq<char>> {
    match utils::spec_tag("+"@, s) {
        Ok(rem) => Ok((rem, Op::Add)),
        Err(_) => match utils::spec_tag("-"@, s) {
            Ok(rem) => Ok((rem, Op::Sub)),
            Err(_) => match utils::spec_tag("*"@, s) {
                Ok(rem) => Ok((rem, Op::Mul)),
                Err(_) => match utils::spec_tag("/"@, s) {
                    Ok(rem) => Ok((rem, Op::Div)),
                    Err(_) => match utils::spec_tag("|"@, s) {
                        Ok(rem) => Ok((rem, Op::DivisibleBy)),
                        Err(m) => Err(m),
                    },
                },
            },
        },
    }
}

impl Op {
    /// Parses one operator literal.
    pub fn new<'a>(s: &'a str) -> (r: Result<(&'a str, Op), String>)
        ensures
            (match (r, spec_op(s@)) {
                (Ok((rem, op)), Ok(p)) => rem@ == p.0 && op == p.1,
                (Err(m), Err(sm)) => m@ == sm,
                _ => false,
            }),
            r matches Ok(p) ==> p.0@.len() < s@.len(),
    {
        proof {
            reveal_strlit("+");
            reveal_strlit("-");
            reveal_strlit("*");
            reveal_strlit("/");
            reveal_strlit("|");
        }
        match utils::tag("+", s) {
            Ok(rem) => Ok((rem, Op::Add)),
            Err(_) => match utils::tag("-", s) {
                Ok(rem) => Ok((rem, Op::Sub)),
                Err(_) => match utils::tag("*", s) {
                    Ok(rem) => Ok((rem, Op::Mul)),
                    Err(_) => match utils::tag("/", s) {
                        Ok(rem) => Ok((rem, Op::Div)),
                        Err(_) => match utils::tag("|", s) {
                            Ok(rem) => Ok((rem, Op::DivisibleBy)),
                            Err(m) => Err(m),
                        },
                    },
                },
            },
        }
    }
}

/// An expression that is not itself an operation, tried in order: number
/// literal, function call, binding usage, block.
pub open spec fn spec_expr_nonop(s: Seq<char>) -> Result<(Seq<char>, SpecExpr), Seq<char>>
    decreases s.len(), 40int,
{
    match spec_number(s) {
        Ok((rem, n)) => Ok((rem, SpecExpr::Number(n))),
        Err(_) => match crate::func_call::spec_func_call(s) {
            Ok((rem, fc)) => Ok((rem, SpecExpr::FuncCall { callee: fc.0, args: fc.1 })),
            Err(_) => match utils::spec_extract_id(s) {
                Ok((rem, name)) => Ok((rem, SpecExpr::BindingUsage(name))),
                Err(_) => match crate::expr::block::spec_block(s) {
                    Ok((rem, ss)) => Ok((rem, SpecExpr::Block(ss))),
                    Err(m) => Err(m),
                },
            },
        },
    }
}

/// A single flat binary operation: a non-operation operand on either side of
/// one operator. The grammar does not nest operations.
pub open spec fn spec_expr_operation(s: Seq<char>) -> Result<(Seq<char>, SpecExpr), Seq<char>>
    decreases s.len(), 50int,
{
    match spec_expr_nonop(s) {
        Err(m) => Err(m),
        Ok((s1, lhs)) => {
            let s2 = utils::spec_extract_whitespaces(s1).0;
            match spec_op(s2) {
                Err(m) => Err(m),
                Ok((s3, op)) => {
                    let s4 = utils::spec_extract_whitespaces(s3).0;
                    if s4.len() <= s.len() {
                        match spec_expr_nonop(s4) {
                            Err(m) => Err(m),
                            Ok((s5, rhs)) => Ok(
                                (
                                    s5,
                                    SpecExpr::Operation {
                                        lhs: Box::new(lhs),
                                        rhs: Box::new(rhs),
                                        op,
                                    },
                                ),
                            ),
                        }
                    } else {
                        // never reached: an operand and an operator always consume input
                        Err(Seq::<char>::empty())
                    }
                },
            }
        },
    }
}

/// A complete expression: the operation form first, else a non-operation.
pub open spec fn spec_expr(s: Seq<char>) -> Result<(Seq<char>, SpecExpr), Seq<char>>
    decreases s.len(), 60int,
{
    match spec_expr_operation(s) {
        Ok(p) => Ok(p),
        Err(_) => spec_expr_nonop(s),
    }
}

impl Expr {
    /// Parses an expression: the operation form first, falling back to a
    /// non-operation expression.
    pub fn new<'a>(s: &'a str) -> (r: Result<(&'a str, Expr), String>)
        ensures
            (match (r, spec_expr(s@)) {
                (Ok((rem, e)), Ok(p)) => rem@ == p.0 && e@ == p.1,
                (Err(m), Err(sm)) => m@ == sm,
                _ => false,
            }),
            r matches Ok(p) ==> p.0@.len() < s@.len(),
        decreases s@.len(), 60int,
    {
        match Self::new_operation(s) {
            Ok(p) => Ok(p),
            Err(_) => Self::new_non_operation(s),
        }
    }

    fn new_non_operation<'a>(s: &'a str) -> (r: Result<(&'a str, Expr), String>)
        ensures
            (match (r, spec_expr_nonop(s@)) {
                (Ok((rem, e)), Ok(p)) => rem@ == p.0 && e@ == p.1,
                (Err(m), Err(sm)) => m@ == sm,
                _ => false,
            }),
            r matches Ok(p) ==> p.0@.len() < s@.len(),
        decreases s@.len(), 40int,
    {
        match Self::new_number(s) {
            Ok(p) => Ok(p),
            Err(_) => match Self::new_func_call(s) {
                Ok(p) => Ok(p),
                Err(_) => match Self::new_binding_usage(s) {
                    Ok(p) => Ok(p),
                    Err(_) => Self::new_block(s),
                },
            },
        }
    }

    fn new_operation<'a>(s: &'a str) -> (r: Result<(&'a str, Expr), String>)
        ensures
            (match (r, spec_expr_operation(s@)) {
                (Ok((rem, e)), Ok(p)) => rem@ == p.0 && e@ == p.1,
                (Err(m), Err(sm)) => m@ == sm,
                _ => false,
            }),
            r matches Ok(p) ==> p.0@.len() < s@.len(),
        decreases s@.len(), 50int,
    {
        match Self::new_non_operation(s) {
            Err(m) => Err(m),
            Ok((s1, lhs)) => {
                let (s2, _) = utils::extract_whitespaces(s1);
                match Op::new(s2) {
                    Err(m) => Err(m),
                    Ok((s3, op)) => {
                        let (s4, _) = utils::extract_whitespaces(s3);
                        match Self::new_non_operation(s4) {
                            Err(m) => Err(m),
                            Ok((s5, rhs)) => Ok(
                                (
                                    s5,
                                    Expr::Operation {
                                        lhs: Box::new(lhs),
                                        rhs: Box::new(rhs),
                                        op,
                                    },
                                ),
                            ),
                        }
                    },
                }
            },
        }
    }

    fn new_number<'a>(s: &'a str) -> (r: Result<(&'a str, Expr), String>)
        ensures
            (match (r, spec_number(s@)) {
                (Ok((rem, e)), Ok(p)) => rem@ == p.0 && e@ == SpecExpr::Number(p.1),
                (Err(m), Err(sm)) => m@ == sm,
                _ => false,
            }),
            r matches Ok(p) ==> p.0@.len() < s@.len(),
    {
        match Number::new(s) {
            Ok((rem, number)) => Ok((rem, Expr::Number(number))),
            Err(m) => Err(m),
        }
    }

    fn new_func_call<'a>(s: &'a str) -> (r: Result<(&'a str, Expr), String>)
        ensures
            (match (r, crate::func_call::spec_func_call(s@)) {
                (Ok((rem, e)), Ok(p)) => rem@ == p.0 && e@ == SpecExpr::FuncCall {
                    callee: p.1.0,
                    args: p.1.1,
                },
                (Err(m), Err(sm)) => m@ == sm,
                _ => false,
            }),
            r matches Ok(p) ==> p.0@.len() < s@.len(),
        decreases s@.len(), 35int,
    {
        match FuncCall::new(s) {
            Ok((rem, func_call)) => Ok((rem, Expr::FuncCall(func_call))),
            Err(m) => Err(m),
        }
    }

    fn new_binding_usage<'a>(s: &'a str) -> (r: Result<(&'a str, Expr), String>)
        ensures
            (match (r, utils::spec_extract_id(s@)) {
                (Ok((rem, e)), Ok(p)) => rem@ == p.0 && e@ == SpecExpr::BindingUsage(p.1),
                (Err(m), Err(sm)) => m@ == sm,
                _ => false,
            }),
            r matches Ok(p) ==> p.0@.len() < s@.len(),
    {
        match BindingUsage::new(s) {
            Ok((rem, binding_usage)) => Ok((rem, Expr::BindingUsage(binding_usage))),
            Err(m) => Err(m),
        }
    }

    fn new_block<'a>(s: &'a str) -> (r: Result<(&'a str, Expr), String>)
        ensures
            (match (r, crate::expr::block::spec_block(s@)) {
                (Ok((rem, e)), Ok(p)) => rem@ == p.0 && e@ == SpecExpr::Block(p.1),
                (Err(m), Err(sm)) => m@ == sm,
                _ => false,
            }),
            r matches Ok(p) ==> p.0@.len() < s@.len(),
        decreases s@.len(), 25int,
    {
        match Block::new(s) {
            Ok((rem, block)) => Ok((rem, Expr::Block(block))),
            Err(m) => Err(m),
        }
    }
}

// ---------------------------------------------------------------------------
// Evaluation
// ---------------------------------------------------------------------------

pub open spec fn type_mismatch_msg() -> Seq<char> {
    "Both lhs and rhs need to be numbers"@
}

pub open spec fn div_by_zero_msg() -> Seq<char> {
    "Division by zero"@
}

pub open spec fn overflow_msg() -> Seq<char> {
    "Numeric overflow"@
}

pub open spec fn recursion_limit_msg() -> Seq<char> {
    "Recursion limit reached"@
}

/// A number result, or an overflow error when it does not fit the value
/// type.
pub open spec fn num_result(n: int) -> Result<Val, Seq<char>> {
    if -0x8000_0000 <= n <= 0x7fff_ffff {
        Ok(Val::Number(n as i32))
    } else {
        Err(overflow_msg())
    }
}

/// Division truncating toward zero, as the host operator divides.
pub open spec fn trunc_div(a: int, b: int) -> int {
    let q = (vstd::math::abs(a) / vstd::math::abs(b)) as int;
    if (a < 0) != (b < 0) {
        -q
    } else {
        q
    }
}

/// Whether `b` divides `a`.
pub open spec fn spec_divisible(a: int, b: int) -> bool {
    vstd::math::abs(a) % vstd::math::abs(b) == 0
}

/// What one operator yields on two numbers: arithmetic results must fit the
/// value type, and division demands a non-zero divisor.
pub open spec fn spec_apply_op(op: Op, a: int, b: int) -> Result<Val, Seq<char>> {
    match op {
        Op::Add => num_result(a + b),
        Op::Sub => num_result(a - b),
        Op::Mul => num_result(a * b),
        Op::Div => if b == 0 {
            Err(div_by_zero_msg())
        } else {
            num_result(trunc_div(a, b))
        },
        Op::DivisibleBy => if b == 0 {
            Err(div_by_zero_msg())
        } else {
            Ok(Val::Bool(spec_divisible(a, b)))
        },
    }
}

/// What an expression evaluates to: a value, or the first error that any
/// sub-evaluation produces. Function application spends one unit of fuel, so
/// evaluation is total; exhausted fuel is an error of its own.
pub open spec fn spec_eval_expr(e: SpecExpr, env: crate::env::SpecEnv, fuel: nat) -> Result<
    Val,
    Seq<char>,
>
    decreases fuel, expr_size(e),
{
    match e {
        SpecExpr::Number(n) => Ok(Val::Number(n as i32)),
        SpecExpr::Operation { lhs, rhs, op } => match spec_eval_expr(*lhs, env, fuel) {
            Err(m) => Err(m),
            Ok(lv) => match spec_eval_expr(*rhs, env, fuel) {
                Err(m) => Err(m),
                Ok(rv) => match (lv, rv) {
                    (Val::Number(a), Val::Number(b)) => spec_apply_op(op, a as int, b as int),
                    _ => Err(type_mismatch_msg()),
                },
            },
        },
        SpecExpr::BindingUsage(name) => match crate::env::env_lookup(env, name) {
            Some(crate::env::SpecNamed::Binding(v)) => Ok(v),
            Some(crate::env::SpecNamed::Func { params, body }) => {
                if params.len() != 0 {
                    Err(crate::func_call::arity_msg(name, params.len(), 0))
                } else if fuel == 0 {
                    Err(recursion_limit_msg())
                } else {
                    match crate::statement::spec_eval_stmt(
                        body,
                        env.push(Map::empty()),
                        (fuel - 1) as nat,
                    ) {
                        Err(m) => Err(m),
                        Ok((v, _)) => Ok(v),
                    }
                }
            },
            None => Err(crate::env::binding_not_found_msg(name)),
        },
        SpecExpr::Block(ss) => if ss.len() == 0 {
            Ok(Val::Unit)
        } else {
            crate::expr::block::spec_eval_block(ss, env.push(Map::empty()), fuel)
        },
        SpecExpr::FuncCall { callee, args } => match crate::env::env_lookup(env, callee) {
            Some(crate::env::SpecNamed::Func { params, body }) => {
                if params.len() != args.len() {
                    Err(crate::func_call::arity_msg(callee, params.len(), args.len()))
                } else if fuel == 0 {
                    Err(recursion_limit_msg())
                } else {
                    match crate::func_call::spec_eval_args(
                        params,
                        args,
                        env.push(Map::empty()),
                        fuel,
                    ) {
                        Err(m) => Err(m),
                        Ok(benv) => match crate::statement::spec_eval_stmt(
                            body,
                            benv,
                            (fuel - 1) as nat,
                        ) {
                            Err(m) => Err(m),
                            Ok((v, _)) => Ok(v),
                        },
                    }
                }
            },
            _ => Err(crate::env::func_not_found_msg(callee)),
        },
    }
}

/// Applies one operator to two numbers.
fn apply_op(op: Op, a: i32, b: i32) -> (r: Result<Val, String>)
    ensures
        (match (r, spec_apply_op(op, a as int, b as int)) {
            (Ok(v), Ok(sv)) => v == sv,
            (Err(m), Err(sm)) => m@ == sm,
            _ => false,
        }),
{
    match op {
        Op::Add => {
            let wide: i64 = (a as i64) + (b as i64);
            if -0x8000_0000i64 <= wide && wide <= 0x7fff_ffffi64 {
                Ok(Val::Number(wide as i32))
            } else {
                Err(String::from_str("Numeric overflow"))
            }
        },
        Op::Sub => {
            let wide: i64 = (a as i64) - (b as i64);
            if -0x8000_0000i64 <= wide && wide <= 0x7fff_ffffi64 {
                Ok(Val::Number(wide as i32))
            } else {
                Err(String::from_str("Numeric overflow"))
            }
        },
        Op::Mul => {
            proof {
                assert((a as int) * (b as int) <= 0x4000_0000_0000_0000 && (a as int) * (
                b as int) >= -0x4000_0000_0000_0000) by (nonlinear_arith)
                    requires
                        -0x8000_0000 <= a as int <= 0x7fff_ffff,
                        -0x8000_0000 <= b as int <= 0x7fff_ffff,
                ;
            }
            let wide: i64 = (a as i64) * (b as i64);
            if -0x8000_0000i64 <= wide && wide <= 0x7fff_ffffi64 {
                Ok(Val::Number(wide as i32))
            } else {
                Err(String::from_str("Numeric overflow"))
            }
        },
        Op::Div => {
            if b == 0 {
                Err(String::from_str("Division by zero"))
            } else {
                match a.checked_div(b) {
                    Some(q) => Ok(Val::Number(q)),
                    None => Err(String::from_str("Numeric overflow")),
                }
            }
        },
        Op::DivisibleBy => {
            if b == 0 {
                Err(String::from_str("Division by zero"))
            } else {
                let mag_a: u64 = (if a < 0 {
                    -(a as i64)
                } else {
                    a as i64
                }) as u64;
                let mag_b: u64 = (if b < 0 {
                    -(b as i64)
                } else {
                    b as i64
                }) as u64;
                Ok(Val::Bool(mag_a % mag_b == 0))
            }
        },
    }
}

impl Expr {
    /// The executable evaluator; its result is exactly what the
    /// mathematical evaluator yields on the models.
    pub(crate) fn eval_fueled(&self, env: &crate::env::Env, fuel: u64) -> (r: Result<Val, String>)
        ensures
            (match (r, spec_eval_expr(self@, env@, fuel as nat)) {
                (Ok(v), Ok(sv)) => v == sv,
                (Err(m), Err(sm)) => m@ == sm,
                _ => false,
            }),
        decreases fuel, expr_size(self@), 1int,
    {
        match self {
            Expr::Number(n) => Ok(Val::Number(n.0)),
            Expr::Operation { lhs, rhs, op } => {
                match (&**lhs).eval_fueled(env, fuel) {
                    Err(m) => Err(m),
                    Ok(lv) => match (&**rhs).eval_fueled(env, fuel) {
                        Err(m) => Err(m),
                        Ok(rv) => match (lv, rv) {
                            (Val::Number(a), Val::Number(b)) => apply_op(*op, a, b),
                            _ => Err(String::from_str("Both lhs and rhs need to be numbers")),
                        },
                    },
                }
            },
            Expr::BindingUsage(b) => b.eval_fueled(env, fuel),
            Expr::Block(b) => b.eval_fueled(env, fuel),
            Expr::FuncCall(fc) => fc.eval_fueled(env, fuel),
        }
    }

    /// Evaluates the expression against an environment.
    pub fn eval(&self, env: &crate::env::Env) -> (r: Result<Val, String>)
        ensures
            (match (r, spec_eval_expr(self@, env@, crate::EVAL_FUEL as nat)) {
                (Ok(v), Ok(sv)) => v == sv,
                (Err(m), Err(sm)) => m@ == sm,
                _ => false,
            }),
    {
        self.eval_fueled(env, crate::EVAL_FUEL)
    }
}

impl Clone for Expr {
    /// A deep copy whose model is the model of the original.
    fn clone(&self) -> (r: Self)
        ensures
            r@ == self@,
        decreases expr_size(self@), 0int,
    {
        match self {
            Expr::Number(n) => Expr::Number(Number(n.0)),
            Expr::Operation { lhs, rhs, op } => Expr::Operation {
                lhs: Box::new((&**lhs).clone()),
                rhs: Box::new((&**rhs).clone()),
                op: *op,
            },
            Expr::BindingUsage(b) => Expr::BindingUsage(b.clone()),
            Expr::Block(b) => Expr::Block(b.clone()),
            Expr::FuncCall(fc) => Expr::FuncCall(fc.clone()),
        }
    }
}

} // verus!
