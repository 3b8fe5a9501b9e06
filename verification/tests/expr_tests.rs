use cat_lang::env::Env;
use cat_lang::expr::{BindingUsage, Block, Expr, Number, Op};
use cat_lang::func_call::FuncCall;
use cat_lang::statement::Statement;
use cat_lang::val::Val;

#[test]
fn expr_parse_number() {
    assert_eq!(Number::new("123"), Ok(("", Number(123))));
    assert_eq!(Number::new("123+2"), Ok(("+2", Number(123))));
}

#[test]
fn expr_parse_add_op() {
    assert_eq!(Op::new("+"), Ok(("", Op::Add)));
    assert_eq!(Op::new("+2"), Ok(("2", Op::Add)));
}

#[test]
fn expr_parse_sub_op() {
    assert_eq!(Op::new("-"), Ok(("", Op::Sub)));
    assert_eq!(Op::new("-2"), Ok(("2", Op::Sub)));
}

#[test]
fn expr_parse_mul_op() {
    assert_eq!(Op::new("*"), Ok(("", Op::Mul)));
    assert_eq!(Op::new("*2"), Ok(("2", Op::Mul)));
}

#[test]
fn expr_parse_div_op() {
    assert_eq!(Op::new("/"), Ok(("", Op::Div)));
    assert_eq!(Op::new("/2"), Ok(("2", Op::Div)));
}

#[test]
fn parse_divisible_by() {
    assert_eq!(Op::new("|"), Ok(("", Op::DivisibleBy)));
    assert_eq!(Op::new("|2"), Ok(("2", Op::DivisibleBy)));
}

#[test]
fn parse_number_as_expr() {
    assert_eq!(Expr::new("456"), Ok(("", Expr::Number(Number(456)))))
}

#[test]
fn expr_parse_one_plus_one() {
    assert_eq!(
        Expr::new("1+2"),
        Ok((
            "",
            Expr::Operation {
                lhs: Box::new(Expr::Number(Number(1))),
                rhs: Box::new(Expr::Number(Number(2))),
                op: Op::Add
            }
        ))
    )
}

#[test]
fn parse_10_div_by_2() {
    assert_eq!(
        Expr::new("10 | 2"),
        Ok((
            "",
            Expr::Operation {
                lhs: Box::new(Expr::Number(Number(10))),
                rhs: Box::new(Expr::Number(Number(2))),
                op: Op::DivisibleBy
            }
        ))
    )
}

#[test]
fn parse_op_with_binding_usage() {
    assert_eq!(
        Expr::new("a *  b"),
        Ok((
            "",
            Expr::Operation {
                lhs: Box::new(Expr::BindingUsage(BindingUsage {
                    name: "a".to_string()
                })),
                rhs: Box::new(Expr::BindingUsage(BindingUsage {
                    name: "b".to_string()
                })),
                op: Op::Mul,
            },
        )),
    );
}

#[test]
fn parse_func_call() {
    assert_eq!(
        Expr::new("add 1 2"),
        Ok((
            "",
            Expr::FuncCall(FuncCall {
                callee: "add".to_string(),
                params: vec![Expr::Number(Number(1)), Expr::Number(Number(2))],
            }),
        )),
    );
}

#[test]
fn expr_parse_expr_with_whitespace() {
    assert_eq!(
        Expr::new("2 *    2"),
        Ok((
            "",
            Expr::Operation {
                lhs: Box::new(Expr::Number(Number(2))),
                rhs: Box::new(Expr::Number(Number(2))),
                op: Op::Mul,
            },
        )),
    );
}

#[test]
fn expr_parse_binding_usage() {
    assert_eq!(
        Expr::new("bar"),
        Ok((
            "",
            Expr::BindingUsage(BindingUsage {
                name: "bar".to_string()
            })
        ))
    )
}

#[test]
fn parse_block() {
    assert_eq!(
        Expr::new("{ 200 }"),
        Ok((
            "",
            Expr::Block(Block {
                statements: vec![Statement::Expr(Expr::Number(Number(200)))]
            })
        ))
    )
}

#[test]
fn eval_static_expr() {
    assert_eq!(
        Expr::Number(Number(2)).eval(&Env::default()),
        Ok(Val::Number(2))
    )
}

#[test]
fn expr_eval_add() {
    assert_eq!(
        Expr::Operation {
            lhs: Box::new(Expr::Number(Number(2))),
            rhs: Box::new(Expr::Number(Number(3))),
            op: Op::Add
        }
        .eval(&Env::default()),
        Ok(Val::Number(5))
    )
}

#[test]
fn expr_eval_sub() {
    assert_eq!(
        Expr::Operation {
            lhs: Box::new(Expr::Number(Number(12))),
            rhs: Box::new(Expr::Number(Number(5))),
            op: Op::Sub
        }
        .eval(&Env::default()),
        Ok(Val::Number(7))
    )
}

#[test]
fn expr_eval_div() {
    assert_eq!(
        Expr::Operation {
            lhs: Box::new(Expr::Number(Number(100))),
            rhs: Box::new(Expr::Number(Number(5))),
            op: Op::Div
        }
        .eval(&Env::default()),
        Ok(Val::Number(20))
    )
}

#[test]
fn expr_eval_mult() {
    assert_eq!(
        Expr::Operation {
            lhs: Box::new(Expr::Number(Number(10))),
            rhs: Box::new(Expr::Number(Number(2))),
            op: Op::Mul
        }
        .eval(&Env::default()),
        Ok(Val::Number(20))
    );
}

#[test]
fn eval_divisible_by() {
    assert_eq!(
        Expr::Operation {
            lhs: Box::new(Expr::Number(Number(10))),
            rhs: Box::new(Expr::Number(Number(2))),
            op: Op::DivisibleBy
        }
        .eval(&Env::default()),
        Ok(Val::Bool(true))
    );
    assert_eq!(
        Expr::Operation {
            lhs: Box::new(Expr::Number(Number(10))),
            rhs: Box::new(Expr::Number(Number(3))),
            op: Op::DivisibleBy
        }
        .eval(&Env::default()),
        Ok(Val::Bool(false))
    )
}

#[test]
fn eval_binding_usage() {
    let mut env = Env::default();
    env.add_binding("foo".to_string(), Val::Number(10));

    assert_eq!(
        Expr::BindingUsage(BindingUsage {
            name: "foo".to_string()
        })
        .eval(&env),
        Ok(Val::Number(10))
    )
}

#[test]
fn eval_block() {
    assert_eq!(
        Expr::Block(Block {
            statements: vec![Statement::Expr(Expr::Number(Number(10)))]
        })
        .eval(&Env::default()),
        Ok(Val::Number(10))
    )
}

#[test]
fn eval_func_call() {
    let mut env = Env::default();

    env.add_func(
        "add".to_string(),
        vec!["x".to_string(), "y".to_string()],
        Statement::Expr(Expr::Operation {
            lhs: Box::new(Expr::BindingUsage(BindingUsage {
                name: "x".to_string(),
            })),
            rhs: Box::new(Expr::BindingUsage(BindingUsage {
                name: "y".to_string(),
            })),
            op: Op::Add,
        }),
    );

    assert_eq!(
        Expr::FuncCall(FuncCall {
            callee: "add".to_string(),
            params: vec![Expr::Number(Number(2)), Expr::Number(Number(2))]
        })
        .eval(&env),
        Ok(Val::Number(4))
    )
}

#[test]
fn eval_non_existent_func_call() {
    let env = Env::default();

    assert_eq!(
        Expr::FuncCall(FuncCall {
            callee: "i_dont_exist".to_string(),
            params: vec![]
        })
        .eval(&env),
        Err("Function with name `i_dont_exist` not found".to_string())
    )
}

#[test]
fn eval_too_few_args_func_call() {
    let mut env = Env::default();

    env.add_func(
        "add".to_string(),
        vec!["x".to_string(), "y".to_string()],
        Statement::Expr(Expr::Operation {
            lhs: Box::new(Expr::BindingUsage(BindingUsage {
                name: "x".to_string(),
            })),
            rhs: Box::new(Expr::BindingUsage(BindingUsage {
                name: "y".to_string(),
            })),
            op: Op::Add,
        }),
    );

    assert_eq!(
        Expr::FuncCall(FuncCall {
            callee: "add".to_string(),
            params: vec![Expr::Number(Number(10))]
        })
        .eval(&env),
        Err("Function `add` expected 2 args but received 1".to_string())
    )
}

#[test]
fn eval_too_many_args_func_call() {
    let mut env = Env::default();

    env.add_func(
        "square".to_string(),
        vec!["x".to_string()],
        Statement::Expr(Expr::Operation {
            lhs: Box::new(Expr::BindingUsage(BindingUsage {
                name: "x".to_string(),
            })),
            rhs: Box::new(Expr::BindingUsage(BindingUsage {
                name: "x".to_string(),
            })),
            op: Op::Mul,
        }),
    );

    assert_eq!(
        Expr::FuncCall(FuncCall {
            callee: "square".to_string(),
            params: vec![Expr::Number(Number(10)), Expr::Number(Number(10))]
        })
        .eval(&env),
        Err("Function `square` expected 1 args but received 2".to_string())
    )
}

#[test]
fn eval_non_number_operation() {
    assert_eq!(
        Expr::Operation {
            lhs: Box::new(Expr::Number(Number(10))),
            rhs: Box::new(Expr::Block(Block {
                statements: Vec::new()
            })),
            op: Op::Add,
        }
        .eval(&Env::default()),
        Err("Both lhs and rhs need to be numbers".to_string()),
    );
}
