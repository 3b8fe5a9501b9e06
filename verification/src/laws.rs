//! The language's general laws, stated over the mathematical parser and
//! evaluator that every executable function is proved to agree with.
use vstd::prelude::*;

use crate::env::{binding_not_found_msg, env_bind, env_lookup, func_not_found_msg, SpecEnv,
    SpecNamed};
use crate::expr::{spec_eval_expr, type_mismatch_msg, Op, SpecExpr};
use crate::func_call::arity_msg;
use crate::statement::{spec_eval_stmt, SpecStmt};
use crate::utils;
use crate::val::Val;

verus! {

/// A binding set inside a block is not visible after it: evaluating a bare
/// expression statement, a block included, leaves the environment exactly as
/// it was.
pub proof fn law_block_leaves_env(ss: Seq<SpecStmt>, env: SpecEnv, fuel: nat)
    ensures
        spec_eval_stmt(SpecStmt::Expr(SpecExpr::Block(ss)), env, fuel) matches Ok(p) ==> p.1
            == env,
{
}

/// A child scope with no bindings of its own resolves every name exactly as
/// its parent chain does: bindings of the parent are visible from the child.
pub proof fn law_child_scope_lookup(env: SpecEnv, name: Seq<char>)
    ensures
        env_lookup(env.push(Map::<Seq<char>, SpecNamed>::empty()), name) == env_lookup(env, name),
{
    let child = env.push(Map::<Seq<char>, SpecNamed>::empty());
    assert(child.drop_last() =~= env);
}

/// Binding a name in the innermost scope shadows every outer meaning of the
/// name totally: resolution yields the new meaning.
pub proof fn law_shadowing(env: SpecEnv, name: Seq<char>, info: SpecNamed)
    requires
        env.len() >= 1,
    ensures
        env_lookup(env_bind(env, name, info), name) == Some(info),
{
}

/// Binding one name never changes what any other name resolves to.
pub proof fn law_bind_preserves_others(env: SpecEnv, name: Seq<char>, info: SpecNamed, other: Seq<
    char,
>)
    requires
        env.len() >= 1,
        other != name,
    ensures
        env_lookup(env_bind(env, name, info), other) == env_lookup(env, other),
{
    let bound = env_bind(env, name, info);
    assert(bound.drop_last() =~= env.drop_last());
    if !env.last().contains_key(other) {
        assert(bound.last() == env.last().insert(name, info));
    }
}

/// Calling a function whose declared parameter count differs from the
/// argument count fails with the arity error naming the function, the
/// expected count, and the received count.
pub proof fn law_arity_mismatch(
    callee: Seq<char>,
    args: Seq<SpecExpr>,
    params: Seq<Seq<char>>,
    body: SpecStmt,
    env: SpecEnv,
    fuel: nat,
)
    requires
        env_lookup(env, callee) == Some(SpecNamed::Func { params, body }),
        params.len() != args.len(),
    ensures
        spec_eval_expr(SpecExpr::FuncCall { callee, args }, env, fuel) == Err::<Val, Seq<char>>(
            arity_msg(callee, params.len(), args.len()),
        ),
{
}

/// Calling a name that is not a function fails with the not-found error
/// naming the identifier.
pub proof fn law_function_not_found(callee: Seq<char>, args: Seq<SpecExpr>, env: SpecEnv, fuel: nat)
    requires
        !(env_lookup(env, callee) matches Some(SpecNamed::Func { params, body })),
    ensures
        spec_eval_expr(SpecExpr::FuncCall { callee, args }, env, fuel) == Err::<Val, Seq<char>>(
            func_not_found_msg(callee),
        ),
{
}

/// Using a name that is bound nowhere in the chain fails with the not-found
/// error naming the identifier.
pub proof fn law_binding_not_found(name: Seq<char>, env: SpecEnv, fuel: nat)
    requires
        env_lookup(env, name) is None,
    ensures
        spec_eval_expr(SpecExpr::BindingUsage(name), env, fuel) == Err::<Val, Seq<char>>(binding_not_found_msg(name)),
{
}

/// An operation whose operands evaluate to anything but two numbers fails
/// with the type-mismatch error, whichever operator stands between them.
pub proof fn law_type_mismatch(lhs: SpecExpr, rhs: SpecExpr, op: Op, env: SpecEnv, fuel: nat)
    requires
        spec_eval_expr(lhs, env, fuel) is Ok,
        spec_eval_expr(rhs, env, fuel) is Ok,
        !(spec_eval_expr(lhs, env, fuel)->Ok_0 is Number) || !(spec_eval_expr(
            rhs,
            env,
            fuel,
        )->Ok_0 is Number),
    ensures
        spec_eval_expr(
            SpecExpr::Operation { lhs: Box::new(lhs), rhs: Box::new(rhs), op },
            env,
            fuel,
        ) == Err::<Val, Seq<char>>(type_mismatch_msg()),
{
}

/// The textual form of a flat binary operation on two number literals,
/// with single spaces around the operator character.
pub open spec fn binop_text(a: nat, opc: char, b: nat) -> Seq<char> {
    utils::dec_digits(a) + seq![' ', opc, ' '] + utils::dec_digits(b)
}

/// The statement that such a text parses to.
pub open spec fn binop_stmt(a: int, op: Op, b: int) -> SpecStmt {
    SpecStmt::Expr(
        SpecExpr::Operation {
            lhs: Box::new(SpecExpr::Number(a)),
            rhs: Box::new(SpecExpr::Number(b)),
            op,
        },
    )
}

proof fn lemma_parse_binop(a: i32, b: i32, opc: char, op: Op)
    requires
        a >= 0,
        b >= 0,
        (opc == '+' && op == Op::Add) || (opc == '-' && op == Op::Sub) || (opc == '*' && op
            == Op::Mul),
    ensures
        crate::spec_parse(binop_text(a as nat, opc, b as nat)) == Ok::<SpecStmt, Seq<char>>(
            binop_stmt(a as int, op, b as int),
        ),
{
    let va = a as nat;
    let vb = b as nat;
    let ds_a = utils::dec_digits(va);
    let ds_b = utils::dec_digits(vb);
    let mid = seq![' ', opc, ' '];
    let text = binop_text(va, opc, vb);
    utils::lemma_dec_digits_are_digits(va);
    utils::lemma_dec_digits_are_digits(vb);
    assert(text =~= ds_a + (mid + ds_b));
    crate::expr::lemma_spec_number_concat(va, mid + ds_b);
    assert(crate::expr::spec_number(text) matches Ok(p) && p.0 == mid + ds_b && p.1 == va);

    // neither keyword opens the text: it starts with a digit
    reveal_strlit("fn");
    reveal_strlit("let");
    assert(text[0] == ds_a[0]);
    assert(utils::spec_is_digit(text[0]));
    assert(utils::spec_tag("fn"@, text) is Err) by {
        if "fn"@.len() <= text.len() && text.take("fn"@.len() as int) == "fn"@ {
            assert(text.take(2)[0] == 'f');
            assert(text.take(2)[0] == text[0]);
            assert(false);
        }
    }
    assert(utils::spec_tag("let"@, text) is Err) by {
        if "let"@.len() <= text.len() && text.take("let"@.len() as int) == "let"@ {
            assert(text.take(3)[0] == 'l');
            assert(text.take(3)[0] == text[0]);
            assert(false);
        }
    }
    assert(crate::func_def::spec_func_def(text) is Err);
    assert(crate::binding_def::spec_binding_def(text) is Err);

    // the left operand
    assert(crate::expr::spec_expr_nonop(text) == Ok::<(Seq<char>, SpecExpr), Seq<char>>(
        (mid + ds_b, SpecExpr::Number(va as int)),
    ));

    // one space, the operator, one space
    let s1 = mid + ds_b;
    assert(s1[0] == ' ' && s1[1] == opc);
    utils::lemma_ws_run_is(s1, 1);
    let s2 = s1.skip(1);
    assert(s2 =~= seq![opc, ' '] + ds_b);
    assert(utils::spec_extract_whitespaces(s1).0 == s2);

    reveal_strlit("+");
    reveal_strlit("-");
    reveal_strlit("*");
    assert(s2.take(1) =~= seq![opc]);
    if opc == '+' {
        assert(s2.take("+"@.len() as int) =~= "+"@);
    } else {
        assert(utils::spec_tag("+"@, s2) is Err) by {
            if "+"@.len() <= s2.len() && s2.take("+"@.len() as int) == "+"@ {
                assert(s2.take(1)[0] == '+');
                assert(false);
            }
        }
        if opc == '-' {
            assert(s2.take("-"@.len() as int) =~= "-"@);
        } else {
            assert(utils::spec_tag("-"@, s2) is Err) by {
                if "-"@.len() <= s2.len() && s2.take("-"@.len() as int) == "-"@ {
                    assert(s2.take(1)[0] == '-');
                    assert(false);
                }
            }
            assert(s2.take("*"@.len() as int) =~= "*"@);
        }
    }
    assert(crate::expr::spec_op(s2) == Ok::<(Seq<char>, Op), Seq<char>>((s2.skip(1), op)));

    let s3 = s2.skip(1);
    assert(s3 =~= seq![' '] + ds_b);
    assert(s3[0] == ' ' && s3[1] == ds_b[0]);
    utils::lemma_ws_run_is(s3, 1);
    let s4 = s3.skip(1);
    assert(s4 =~= ds_b);
    assert(utils::spec_extract_whitespaces(s3).0 == s4);

    // the right operand consumes the rest
    assert(ds_b + Seq::<char>::empty() =~= ds_b);
    crate::expr::lemma_spec_number_concat(vb, Seq::<char>::empty());
    assert(crate::expr::spec_number(s4) matches Ok(p) && p.0.len() == 0 && p.1 == vb);
    let tail = crate::expr::spec_number(s4)->Ok_0.0;
    assert(crate::expr::spec_expr_nonop(s4) == Ok::<(Seq<char>, SpecExpr), Seq<char>>(
        (tail, SpecExpr::Number(vb as int)),
    ));

    assert(crate::expr::spec_expr_operation(text) == Ok::<(Seq<char>, SpecExpr), Seq<char>>(
        (
            tail,
            SpecExpr::Operation {
                lhs: Box::new(SpecExpr::Number(va as int)),
                rhs: Box::new(SpecExpr::Number(vb as int)),
                op,
            },
        ),
    ));
    assert(crate::statement::spec_statement(text) matches Ok(p) && p.0.len() == 0 && p.1
        == binop_stmt(a as int, op, b as int));
}

proof fn lemma_eval_binop(a: i32, b: i32, op: Op, env: SpecEnv, fuel: nat)
    ensures
        spec_eval_stmt(binop_stmt(a as int, op, b as int), env, fuel) == (match crate::expr::spec_apply_op(op, a as int, b as int) {
            Ok(v) => Ok::<(Val, SpecEnv), Seq<char>>((v, env)),
            Err(m) => Err(m),
        }),
{
    let la = SpecExpr::Number(a as int);
    let rb = SpecExpr::Number(b as int);
    let e = SpecExpr::Operation { lhs: Box::new(la), rhs: Box::new(rb), op };
    assert(spec_eval_expr(la, env, fuel) == Ok::<Val, Seq<char>>(Val::Number(a)));
    assert(spec_eval_expr(rb, env, fuel) == Ok::<Val, Seq<char>>(Val::Number(b)));
    assert(spec_eval_expr(e, env, fuel) == crate::expr::spec_apply_op(op, a as int, b as int));
}

/// For all in-range numbers, evaluating the textual form `a + b` yields
/// their sum.
pub proof fn law_addition(a: i32, b: i32, env: SpecEnv, fuel: nat)
    requires
        a >= 0,
        b >= 0,
        a + b <= 0x7fff_ffff,
    ensures
        crate::spec_parse(binop_text(a as nat, '+', b as nat)) matches Ok(st)
            && spec_eval_stmt(st, env, fuel) matches Ok(p) && p.0 == Val::Number((a + b) as i32)
            && p.1 == env,
{
    lemma_parse_binop(a, b, '+', Op::Add);
    lemma_eval_binop(a, b, Op::Add, env, fuel);
}

/// For all in-range numbers, evaluating the textual form `a - b` yields
/// their difference.
pub proof fn law_subtraction(a: i32, b: i32, env: SpecEnv, fuel: nat)
    requires
        a >= 0,
        b >= 0,
    ensures
        crate::spec_parse(binop_text(a as nat, '-', b as nat)) matches Ok(st)
            && spec_eval_stmt(st, env, fuel) matches Ok(p) && p.0 == Val::Number((a - b) as i32)
            && p.1 == env,
{
    lemma_parse_binop(a, b, '-', Op::Sub);
    lemma_eval_binop(a, b, Op::Sub, env, fuel);
}

/// For all in-range numbers, evaluating the textual form `a * b` yields
/// their product.
pub proof fn law_multiplication(a: i32, b: i32, env: SpecEnv, fuel: nat)
    requires
        a >= 0,
        b >= 0,
        a * b <= 0x7fff_ffff,
    ensures
        crate::spec_parse(binop_text(a as nat, '*', b as nat)) matches Ok(st)
            && spec_eval_stmt(st, env, fuel) matches Ok(p) && p.0 == Val::Number((a * b) as i32)
            && p.1 == env,
{
    lemma_parse_binop(a, b, '*', Op::Mul);
    lemma_eval_binop(a, b, Op::Mul, env, fuel);
    assert(a as int * b as int >= 0) by (nonlinear_arith)
        requires
            a >= 0,
            b >= 0,
    ;
}

/// Parsing and evaluation are functions of the input text and the
/// environment model alone: identical input against an identically shaped
/// environment always yields an identical outcome.
pub proof fn law_deterministic(s1: Seq<char>, s2: Seq<char>, env1: SpecEnv, env2: SpecEnv, fuel: nat)
    requires
        s1 == s2,
        env1 == env2,
    ensures
        crate::spec_parse(s1) == crate::spec_parse(s2),
        crate::spec_parse(s1) matches Ok(st) ==> spec_eval_stmt(st, env1, fuel) == spec_eval_stmt(
            st,
            env2,
            fuel,
        ),
{
}

} // verus!
