use mp_lang::lexer::{tokenize, LexerError};
use mp_lang::parser::parse;
use mp_lang::runtime::environment::Environment;
use mp_lang::runtime::eval::{eval, eval_with_env};
use mp_lang::runtime::function::UserFunction;
use mp_lang::runtime::value::{Number, Value};
use mp_lang::InterpreterError;

fn run(src: &str) -> Result<Value, InterpreterError> {
    let tokens = tokenize(src).unwrap();
    let ast = parse(tokens).unwrap();
    eval(ast)
}

#[test]
fn test_precedence_value() {
    assert_eq!(run("1 + 2 * 3").unwrap(), Value::Number(Number::Int(7)));
    assert_eq!(run("(1 + 2) * 3").unwrap(), Value::Number(Number::Int(9)));
    assert_eq!(run("10 - 2 - 3").unwrap(), Value::Number(Number::Int(5)));
    assert_eq!(run("20 / 2 / 5").unwrap(), Value::Number(Number::Int(2)));
}

#[test]
fn test_if_both_directions() {
    assert_eq!(
        run("if 1 < 2 {3} else {4}").unwrap(),
        Value::Number(Number::Int(3))
    );
    assert_eq!(
        run("if 2 < 1 {3} else {4}").unwrap(),
        Value::Number(Number::Int(4))
    );
    assert_eq!(run("if 1 < 2 {3}").unwrap(), Value::Number(Number::Int(3)));
    assert_eq!(run("if 2 < 1 {3};").unwrap(), Value::Nil);
}

#[test]
fn test_block_scoping_outer_unaffected() {
    assert_eq!(
        run("let x = 1; { x = 2; 0 }; x").unwrap(),
        Value::Number(Number::Int(1))
    );
    assert_eq!(
        run("let x = 1; { let x = 2; x }").unwrap(),
        Value::Number(Number::Int(2))
    );
}

#[test]
fn test_numeric_literal_round_trip_samples() {
    assert_eq!(run("0").unwrap(), Value::Number(Number::Int(0)));
    assert_eq!(run("7").unwrap(), Value::Number(Number::Int(7)));
    assert_eq!(
        run("170141183460469231731687303715884105727").unwrap(),
        Value::Number(Number::Int(i128::MAX))
    );
    // One more than the largest representable literal cannot be lexed.
    assert!(matches!(
        tokenize("170141183460469231731687303715884105728"),
        Err(LexerError::InvalidNumber(_, _))
    ));
}

#[test]
fn test_type_errors_not_coerced() {
    assert!(matches!(
        run("true + 1"),
        Err(InterpreterError::TypeMismatch(_))
    ));
    assert!(matches!(
        run("if 1 { 2 } else { 3 }"),
        Err(InterpreterError::TypeMismatch(_))
    ));
    assert!(matches!(
        run("while 1 { 2 };"),
        Err(InterpreterError::TypeMismatch(_))
    ));
    assert!(matches!(
        run("\"a\" + \"b\""),
        Err(InterpreterError::TypeMismatch(_))
    ));
}

#[test]
fn test_arity_mismatch() {
    assert!(matches!(
        run("fn add(a, b) { a + b }; add(1)"),
        Err(InterpreterError::InvalidOperation(_))
    ));
    assert!(matches!(
        run("fn add(a, b) { a + b }; add(1, 2, 3)"),
        Err(InterpreterError::InvalidOperation(_))
    ));
    assert_eq!(
        run("fn add(a, b) { a + b }; add(1, 2)").unwrap(),
        Value::Number(Number::Int(3))
    );
}

#[test]
fn test_reparsing_same_tokens_gives_same_ast() {
    let tokens = tokenize("let x = 1\nfn f(a) { a * 2 }\nf(x) + [1, 2]").unwrap();
    let first = parse(tokens.clone()).unwrap();
    let second = parse(tokens).unwrap();
    assert_eq!(first, second);
}

#[test]
fn test_recursion_through_function_bindings() {
    assert_eq!(
        run("fn fac(n) { if n < 2 { 1 } else { n * fac(n - 1) } }; fac(5)").unwrap(),
        Value::Number(Number::Int(120))
    );
}

#[test]
fn test_division_errors() {
    assert!(matches!(
        run("1 / 0"),
        Err(InterpreterError::InvalidOperation(_))
    ));
    assert_eq!(run("7 / 2").unwrap(), Value::Number(Number::Int(3)));
    assert_eq!(run("0 - 7 / 2").unwrap(), Value::Number(Number::Int(-3)));
}

#[test]
fn test_numeric_overflow_errors() {
    assert!(matches!(
        run("170141183460469231731687303715884105727 + 1"),
        Err(InterpreterError::InvalidOperation(_))
    ));
    assert!(matches!(
        run("0 - 170141183460469231731687303715884105727 - 2"),
        Err(InterpreterError::InvalidOperation(_))
    ));
}

#[test]
fn test_comparison_and_equality() {
    assert_eq!(run("1 == 1").unwrap(), Value::Boolean(true));
    assert_eq!(run("1 != 1").unwrap(), Value::Boolean(false));
    assert_eq!(run("2 >= 2").unwrap(), Value::Boolean(true));
    assert_eq!(run("2 <= 1").unwrap(), Value::Boolean(false));
    assert_eq!(run("true == true").unwrap(), Value::Boolean(true));
    assert_eq!(run("true != false").unwrap(), Value::Boolean(true));
}

#[test]
fn test_assignment_yields_value_and_rebinds() {
    let mut env = Environment::new();
    env.define("x".to_string(), Value::Number(Number::Int(1)));
    let tokens = tokenize("x = 41 + 1").unwrap();
    let ast = parse(tokens).unwrap();
    let result = eval_with_env(ast, &mut env).unwrap();
    assert_eq!(result, Value::Number(Number::Int(42)));
    assert_eq!(env.get("x"), Some(Value::Number(Number::Int(42))));
}

#[test]
fn test_shadowing_a_builtin() {
    assert_eq!(
        run("let print = 5; print").unwrap(),
        Value::Number(Number::Int(5))
    );
}

#[test]
fn test_string_and_array_values() {
    assert_eq!(run("\"hi\"").unwrap(), Value::String("hi".to_string()));
    assert_eq!(
        run("[1, 1 + 1]").unwrap(),
        Value::Array(vec![
            Value::Number(Number::Int(1)),
            Value::Number(Number::Int(2))
        ])
    );
    assert_eq!(run("[]").unwrap(), Value::Array(vec![]));
}

#[test]
fn test_object_literal_last_key_wins() {
    assert_eq!(
        run("{\"a\": 1, \"b\": 2, \"a\": 3}").unwrap(),
        Value::Object(vec![
            ("a".to_string(), Value::Number(Number::Int(3))),
            ("b".to_string(), Value::Number(Number::Int(2)))
        ])
    );
}

#[test]
fn test_int_builtin() {
    assert_eq!(run("int(42)").unwrap(), Value::Number(Number::Int(42)));
    assert_eq!(
        run("int(\"-17\")").unwrap(),
        Value::Number(Number::Int(-17))
    );
    assert_eq!(run("int(\"+8\")").unwrap(), Value::Number(Number::Int(8)));
    assert!(matches!(
        run("int(\"seven\")"),
        Err(InterpreterError::InvalidOperation(_))
    ));
    assert!(matches!(
        run("int(true)"),
        Err(InterpreterError::TypeMismatch(_))
    ));
}

#[test]
fn test_push_pop_copy_semantics() {
    assert_eq!(
        run("let v = vector(1, 2); let w = push(v, 3); pop(w)").unwrap(),
        Value::Number(Number::Int(3))
    );
    assert_eq!(
        run("let v = vector(1, 2); push(v, 3); pop(v)").unwrap(),
        Value::Number(Number::Int(2))
    );
    assert!(matches!(
        run("pop(vector())"),
        Err(InterpreterError::InvalidOperation(_))
    ));
    assert!(matches!(
        run("push(1, 2)"),
        Err(InterpreterError::TypeMismatch(_))
    ));
}

#[test]
fn test_random_builtin_in_range() {
    let one = run("random(10)").unwrap();
    match one {
        Value::Number(Number::Int(v)) => assert!((0..10).contains(&v)),
        other => panic!("expected a number, got {:?}", other),
    }
    let two = run("random(5, 6)").unwrap();
    assert_eq!(two, Value::Number(Number::Int(5)));
    assert!(matches!(
        run("random(0)"),
        Err(InterpreterError::InvalidOperation(_))
    ));
    assert!(matches!(
        run("random(1, 2, 3)"),
        Err(InterpreterError::InvalidOperation(_))
    ));
}

#[test]
fn test_display_strings() {
    assert_eq!(
        Value::Number(Number::Int(-5)).to_display_string(),
        "-5".to_string()
    );
    assert_eq!(
        Value::Number(Number::Int(1234567890)).to_display_string(),
        "1234567890".to_string()
    );
    assert_eq!(Value::Boolean(true).to_display_string(), "true".to_string());
    assert_eq!(Value::Nil.to_display_string(), "nil".to_string());
    assert_eq!(
        Value::Array(vec![
            Value::Number(Number::Int(1)),
            Value::String("x".to_string())
        ])
        .to_display_string(),
        "[1, x]".to_string()
    );
    assert_eq!(
        Value::Object(vec![("k".to_string(), Value::Number(Number::Int(2)))])
            .to_display_string(),
        "{k: 2}".to_string()
    );
}

#[test]
fn test_user_function_call_api() {
    let tokens = tokenize("fn double(n) { n * 2 }").unwrap();
    let ast = parse(tokens).unwrap();
    let body = match &ast[0] {
        mp_lang::parser::ast::Stmt::Function { body, .. } => body.clone(),
        other => panic!("expected a function declaration, got {:?}", other),
    };
    let f = UserFunction::new(vec!["n".to_string()], body);
    let result = f.call(vec![Value::Number(Number::Int(21))]).unwrap();
    assert_eq!(result, Value::Number(Number::Int(42)));
    assert!(matches!(
        f.call(vec![]),
        Err(InterpreterError::InvalidOperation(_))
    ));
}

#[test]
fn test_parser_error_kinds() {
    assert!(parse(tokenize("1 +").unwrap()).is_err());
    assert!(parse(tokenize("let 5 = 3").unwrap()).is_err());
    assert!(parse(tokenize("(1 + 2").unwrap()).is_err());
    assert!(parse(tokenize("1 + 2 = 3").unwrap()).is_err());
}

#[test]
fn test_lexer_error_kinds() {
    assert!(matches!(
        tokenize("45.67"),
        Err(LexerError::InvalidNumber(_, _))
    ));
    assert!(matches!(tokenize("@"), Err(LexerError::UnexpectedChar(_, _))));
    assert!(matches!(
        tokenize("\"oops"),
        Err(LexerError::UnclosedString(_))
    ));
    assert!(matches!(
        tokenize("/* oops"),
        Err(LexerError::UnclosedComment(_))
    ));
    assert!(matches!(
        tokenize("\"bad \\q escape\""),
        Err(LexerError::InvalidEscape(_, _))
    ));
}

#[test]
fn test_while_body_shares_enclosing_scope() {
    assert_eq!(
        run("let x = 0; while x < 5 { x = x + 2 }; x").unwrap(),
        Value::Number(Number::Int(6))
    );
}

#[test]
fn test_return_at_top_level_is_the_final_value() {
    let tokens = tokenize("return 9").unwrap();
    let ast = parse(tokens).unwrap();
    match eval(ast) {
        Err(InterpreterError::Return(v)) => assert_eq!(v, Value::Number(Number::Int(9))),
        other => panic!("expected a return signal, got {:?}", other),
    }
}

#[test]
fn test_round_trip_rendered_tokens() {
    let sources = [
        "1 + 2 * 3",
        "let x = 1; fn f(a, b) { if a < b { a } else { b } }; f(x, 2)",
        "let s = \"say \\\"hi\\\"\\n\"; s",
        "{ let x = 0; while x < 3 { x = x + 1 } }",
        "[1, 2, [3]]; {\"a\": 1}",
        "// note\n1 + 2",
    ];
    for src in sources {
        let tokens = mp_lang::lexer::tokenize(src).unwrap();
        let rendered = mp_lang::lexer::render_tokens(&tokens);
        let again = mp_lang::lexer::tokenize(&rendered).unwrap();
        let first = parse(tokens).unwrap();
        let second = parse(again).unwrap();
        assert_eq!(first, second);
    }
}
