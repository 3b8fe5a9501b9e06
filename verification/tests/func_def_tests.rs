use cat_lang::env::Env;
use cat_lang::expr::{BindingUsage, Block, Expr, Number, Op};
use cat_lang::func_def::FuncDef;
use cat_lang::statement::Statement;
use cat_lang::val::Val;

#[test]
fn parse_func_def_with_no_params_and_empty_body() {
    assert_eq!(
        FuncDef::new("fn nothing => {}"),
        Ok((
            "",
            FuncDef {
                name: "nothing".to_string(),
                params: Vec::new(),
                body: Box::new(Statement::Expr(Expr::Block(Block {
                    statements: Vec::new()
                }))),
            },
        )),
    );
}

#[test]
fn parse_func_def_with_one_param_and_empty_body() {
    assert_eq!(
        FuncDef::new("fn greet name => {}"),
        Ok((
            "",
            FuncDef {
                name: "greet".to_string(),
                params: vec!["name".to_string()],
                body: Box::new(Statement::Expr(Expr::Block(Block {
                    statements: Vec::new()
                }))),
            },
        )),
    );
}

#[test]
fn parse_func_def_with_multiple_params() {
    assert_eq!(
        FuncDef::new("fn add x y => x + y"),
        Ok((
            "",
            FuncDef {
                name: "add".to_string(),
                params: vec!["x".to_string(), "y".to_string()],
                body: Box::new(Statement::Expr(Expr::Operation {
                    lhs: Box::new(Expr::BindingUsage(BindingUsage {
                        name: "x".to_string()
                    })),
                    rhs: Box::new(Expr::BindingUsage(BindingUsage {
                        name: "y".to_string()
                    })),
                    op: Op::Add
                }))
            }
        ))
    )
}

#[test]
fn eval_func_def() {
    assert_eq!(
        Statement::FuncDef(FuncDef {
            name: "eq_to_one".to_string(),
            params: Vec::new(),
            body: Box::new(Statement::Expr(Expr::Number(Number(1))))
        })
        .eval(&mut Env::default()),
        Ok(Val::Unit)
    )
}
