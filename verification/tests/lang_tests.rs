use cat_lang::{parse, Env, Val};

fn run(input: &str, env: &mut Env) -> Result<Val, String> {
    parse(input)?.eval(env)
}

#[test]
fn pipeline_addition() {
    let mut env = Env::default();
    assert_eq!(run("2 + 2", &mut env), Ok(Val::Number(4)));
}

#[test]
fn pipeline_subtraction_below_zero() {
    let mut env = Env::default();
    assert_eq!(run("3 - 10", &mut env), Ok(Val::Number(-7)));
}

#[test]
fn pipeline_multiplication() {
    let mut env = Env::default();
    assert_eq!(run("6 * 7", &mut env), Ok(Val::Number(42)));
}

#[test]
fn pipeline_division_truncates() {
    let mut env = Env::default();
    assert_eq!(run("7 / 2", &mut env), Ok(Val::Number(3)));
}

#[test]
fn pipeline_divisible_by_is_true() {
    let mut env = Env::default();
    assert_eq!(run("10 | 2", &mut env), Ok(Val::Bool(true)));
}

#[test]
fn pipeline_divisible_by_is_false() {
    let mut env = Env::default();
    assert_eq!(run("10 | 3", &mut env), Ok(Val::Bool(false)));
}

#[test]
fn pipeline_empty_block_is_unit() {
    let mut env = Env::default();
    assert_eq!(run("{ }", &mut env), Ok(Val::Unit));
}

#[test]
fn pipeline_block_yields_last_value() {
    let mut env = Env::default();
    assert_eq!(run("{ 5 }", &mut env), Ok(Val::Number(5)));
}

#[test]
fn pipeline_binding_in_block_not_visible_after() {
    let mut env = Env::default();
    assert_eq!(run("{ let a = 1 }", &mut env), Ok(Val::Unit));
    assert_eq!(
        run("a", &mut env),
        Err("Binding with name `a` not found".to_string())
    );
}

#[test]
fn pipeline_block_sees_parent_binding() {
    let mut env = Env::default();
    assert_eq!(run("let foo = 5", &mut env), Ok(Val::Unit));
    assert_eq!(
        run("{ let bar = foo\nbar }", &mut env),
        Ok(Val::Number(5))
    );
}

#[test]
fn pipeline_later_binding_shadows_earlier() {
    let mut env = Env::default();
    assert_eq!(run("let a = 1", &mut env), Ok(Val::Unit));
    assert_eq!(run("let a = 2", &mut env), Ok(Val::Unit));
    assert_eq!(run("a", &mut env), Ok(Val::Number(2)));
}

#[test]
fn pipeline_function_definition_and_call() {
    let mut env = Env::default();
    assert_eq!(run("fn add x y => x + y", &mut env), Ok(Val::Unit));
    assert_eq!(run("add 20 22", &mut env), Ok(Val::Number(42)));
}

#[test]
fn pipeline_zero_argument_function_via_name() {
    let mut env = Env::default();
    assert_eq!(run("fn five => 5", &mut env), Ok(Val::Unit));
    assert_eq!(run("five", &mut env), Ok(Val::Number(5)));
}

#[test]
fn pipeline_argument_sees_earlier_parameter() {
    let mut env = Env::default();
    assert_eq!(run("fn second x y => y", &mut env), Ok(Val::Unit));
    assert_eq!(run("second 1 x", &mut env), Ok(Val::Number(1)));
}

#[test]
fn pipeline_too_few_arguments() {
    let mut env = Env::default();
    assert_eq!(run("fn add x y => x + y", &mut env), Ok(Val::Unit));
    assert_eq!(
        run("add 5", &mut env),
        Err("Function `add` expected 2 args but received 1".to_string())
    );
}

#[test]
fn pipeline_too_many_arguments() {
    let mut env = Env::default();
    assert_eq!(run("fn add x y => x + y", &mut env), Ok(Val::Unit));
    assert_eq!(
        run("add 1 2 3", &mut env),
        Err("Function `add` expected 2 args but received 3".to_string())
    );
}

#[test]
fn pipeline_undefined_function() {
    let mut env = Env::default();
    assert_eq!(
        run("undefined_fn 1", &mut env),
        Err("Function with name `undefined_fn` not found".to_string())
    );
}

#[test]
fn pipeline_undefined_binding() {
    let mut env = Env::default();
    assert_eq!(
        run("missing", &mut env),
        Err("Binding with name `missing` not found".to_string())
    );
}

#[test]
fn pipeline_type_mismatch_on_unit_operand() {
    let mut env = Env::default();
    assert_eq!(
        run("1 + { }", &mut env),
        Err("Both lhs and rhs need to be numbers".to_string())
    );
    assert_eq!(
        run("{ } + 1", &mut env),
        Err("Both lhs and rhs need to be numbers".to_string())
    );
}

#[test]
fn pipeline_type_mismatch_on_bool_operand() {
    let mut env = Env::default();
    assert_eq!(run("let t = 4 | 2", &mut env), Ok(Val::Unit));
    assert_eq!(
        run("t * 3", &mut env),
        Err("Both lhs and rhs need to be numbers".to_string())
    );
}

#[test]
fn pipeline_division_by_zero() {
    let mut env = Env::default();
    assert_eq!(run("1 / 0", &mut env), Err("Division by zero".to_string()));
    assert_eq!(run("1 | 0", &mut env), Err("Division by zero".to_string()));
}

#[test]
fn pipeline_addition_overflow() {
    let mut env = Env::default();
    assert_eq!(
        run("2000000000 + 2000000000", &mut env),
        Err("Numeric overflow".to_string())
    );
}

#[test]
fn pipeline_negative_division_truncates_toward_zero() {
    let mut env = Env::default();
    assert_eq!(run("let n = 0 - 7", &mut env), Ok(Val::Unit));
    assert_eq!(run("n / 2", &mut env), Ok(Val::Number(-3)));
    assert_eq!(run("n | 7", &mut env), Ok(Val::Bool(true)));
}

#[test]
fn pipeline_trailing_input_is_an_error() {
    let mut env = Env::default();
    assert_eq!(
        run("1 2", &mut env),
        Err("Input was not fully consumed".to_string())
    );
}

#[test]
fn pipeline_oversized_literal_is_a_parse_error() {
    assert_eq!(
        parse("99999999999999").map(|_| ()),
        Err("Expected `{` not found in `99999999999999`".to_string())
    );
}

#[test]
fn pipeline_unbounded_recursion_stops() {
    let mut env = Env::default();
    assert_eq!(run("fn loop_forever => loop_forever", &mut env), Ok(Val::Unit));
    assert_eq!(
        run("loop_forever", &mut env),
        Err("Recursion limit reached".to_string())
    );
}

#[test]
fn pipeline_deterministic_reruns() {
    let mut env1 = Env::default();
    let mut env2 = Env::default();
    let program = ["fn double x => x * 2", "let a = double 21", "a"];
    let r1: Vec<Result<Val, String>> = program.iter().map(|s| run(s, &mut env1)).collect();
    let r2: Vec<Result<Val, String>> = program.iter().map(|s| run(s, &mut env2)).collect();
    assert_eq!(r1, r2);
    assert_eq!(r1[2], Ok(Val::Number(42)));
}

#[test]
fn render_number() {
    assert_eq!(Val::Number(5).render(), "5");
    assert_eq!(Val::Number(0).render(), "0");
    assert_eq!(Val::Number(2147483647).render(), "2147483647");
    assert_eq!(Val::Number(-3).render(), "-3");
    assert_eq!(Val::Number(-2147483648).render(), "-2147483648");
}

#[test]
fn render_bool_and_unit() {
    assert_eq!(Val::Bool(true).render(), "true");
    assert_eq!(Val::Bool(false).render(), "false");
    assert_eq!(Val::Unit.render(), "Unit");
}

#[test]
fn whitespace_between_keyword_and_name_is_required() {
    let mut env = Env::default();
    assert_eq!(
        run("letx=1", &mut env),
        Err("Input was not fully consumed".to_string())
    );
}

#[test]
fn nested_blocks_evaluate_inside_out() {
    let mut env = Env::default();
    assert_eq!(run("{ { 7 } }", &mut env), Ok(Val::Number(7)));
}

#[test]
fn function_body_runs_in_callers_scope_chain() {
    let mut env = Env::default();
    assert_eq!(run("let base = 40", &mut env), Ok(Val::Unit));
    assert_eq!(run("fn bump x => base + x", &mut env), Ok(Val::Unit));
    assert_eq!(run("bump 2", &mut env), Ok(Val::Number(42)));
}
