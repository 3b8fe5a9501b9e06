use cat_lang::expr::{Expr, Number};
use cat_lang::func_call::FuncCall;

#[test]
fn parse_func_call_with_one_parameter() {
    assert_eq!(
        FuncCall::new("factorial 10"),
        Ok((
            "",
            FuncCall {
                callee: "factorial".to_string(),
                params: vec![Expr::Number(Number(10))],
            },
        )),
    );
}

#[test]
fn parse_func_call_with_multiple_parameters() {
    assert_eq!(
        FuncCall::new("sum 10 20"),
        Ok((
            "",
            FuncCall {
                callee: "sum".to_string(),
                params: vec![Expr::Number(Number(10)), Expr::Number(Number(20))],
            },
        )),
    );
}
