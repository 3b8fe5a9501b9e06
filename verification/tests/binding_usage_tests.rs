use cat_lang::env::Env;
use cat_lang::expr::{BindingUsage, Expr, Number};
use cat_lang::statement::Statement;
use cat_lang::val::Val;

#[test]
fn binding_usage_parse_binding_usage() {
    assert_eq!(
        BindingUsage::new("foo"),
        Ok((
            "",
            BindingUsage {
                name: "foo".to_string()
            }
        ))
    )
}

#[test]
fn eval_existing_binding_usage() {
    let mut env = Env::default();
    env.add_binding("foo".to_string(), Val::Number(10));

    assert_eq!(
        BindingUsage {
            name: "foo".to_string()
        }
        .eval(&env),
        Ok(Val::Number(10))
    )
}

#[test]
fn eval_func_call_with_no_params() {
    let mut env = Env::default();
    env.add_func(
        "fn_no_param".to_string(),
        vec![],
        Statement::Expr(Expr::Number(Number(2))),
    );

    assert_eq!(
        BindingUsage {
            name: "fn_no_param".to_string()
        }
        .eval(&env),
        Ok(Val::Number(2))
    )
}

#[test]
fn fail_to_eval_non_existing_binding_usage() {
    let empty_env = Env::default();

    assert_eq!(
        BindingUsage {
            name: "unknown".to_string()
        }
        .eval(&empty_env),
        Err("Binding with name `unknown` not found".to_string())
    )
}
