use cat_lang::binding_def::BindingDef;
use cat_lang::expr::{Expr, Number, Op};

#[test]
fn parse_binding_def_with_ascii_id() {
    assert_eq!(
        BindingDef::new("let a = 10 /2"),
        Ok((
            "",
            BindingDef {
                name: "a".to_string(),
                val: Expr::Operation {
                    lhs: Box::new(Expr::Number(Number(10))),
                    rhs: Box::new(Expr::Number(Number(2))),
                    op: Op::Div
                }
            }
        ))
    )
}

#[test]
fn parse_binding_def_with_unicode_id() {
    assert_eq!(
        BindingDef::new("let id_\u{611b}    =3   * 5"),
        Ok((
            "",
            BindingDef {
                name: "id_\u{611b}".to_string(),
                val: Expr::Operation {
                    lhs: Box::new(Expr::Number(Number(3))),
                    rhs: Box::new(Expr::Number(Number(5))),
                    op: Op::Mul
                }
            }
        ))
    )
}

#[test]
fn fails_to_parse_binding_def_without_space_after_keyword() {
    assert_eq!(
        BindingDef::new("letmy_var=1+2"),
        Err("Expected space".to_string())
    )
}
