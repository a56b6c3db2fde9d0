use tinylang::ast::expression::Value;
use tinylang::ast::expression::Value::{BoolValue, IntValue, List};
use tinylang::env::Env;
use tinylang::error::EvalError;
use tinylang::parser::{parse_expression, Parser};
use tinylang::token::tokenize;

fn assert_ast_eval(text: &str, expected: i64) {
    let tokens = tokenize(&text.to_string());
    if let Ok(ast) = parse_expression(&tokens.unwrap()) {
        match ast.eval(&mut Env::new(), None) {
            Ok(value) => assert_eq!(value, IntValue(expected)),
            Err(_) => assert!(false),
        }
    } else {
        assert!(false);
    }
}

fn assert_expression_evaluation(text: &str, expected: Result<Value, EvalError>) {
    let tokens = tokenize(&text.to_string()).unwrap();
    let mut parser = Parser::new(&tokens);
    let ast = parser.parse_expression().unwrap();
    let result = ast.eval(&mut Env::new(), None);
    assert_eq!(result, expected);
}

#[test]
fn test_ast_eval() {
    assert_ast_eval("1", 1);
    assert_ast_eval("1 + 1 + 1", 3);
    assert_ast_eval("1 * 1 * 1", 1);
    assert_ast_eval("1 + 2 * 3", 7);
    assert_ast_eval("2 * 3 + 1", 7);
    assert_ast_eval("2 * (3 + 1)", 8);
    assert_ast_eval("(2 * 3) + 1", 7);
    assert_ast_eval("1 + 1 + 1 + 1 + 1 + 1", 6);

    assert_ast_eval("-1", -1);
    assert_ast_eval("-1 + 1", 0);
    assert_ast_eval("-1 + 2 * 2", 3);
    assert_ast_eval("2 * 2 - 1", 3);
}

#[test]
fn test_simple_bool_eval() {
    // test ==
    assert_expression_evaluation("1 == 1", Ok(BoolValue(true)));
    assert_expression_evaluation("1 == 2", Ok(BoolValue(false)));
    assert_expression_evaluation("2 == 1", Ok(BoolValue(false)));
    assert_expression_evaluation("2 == 2", Ok(BoolValue(true)));

    // test relational
    assert_expression_evaluation("1 > 1", Ok(BoolValue(false)));
    assert_expression_evaluation("1 < 1", Ok(BoolValue(false)));
    assert_expression_evaluation("2 > 1", Ok(BoolValue(true)));
    assert_expression_evaluation("2 < 1", Ok(BoolValue(false)));
    assert_expression_evaluation("1 >= 1", Ok(BoolValue(true)));
    assert_expression_evaluation("1 <= 1", Ok(BoolValue(true)));
}

#[test]
fn test_bool_eval() {
    assert_expression_evaluation("1 + 1 == 2", Ok(BoolValue(true)));
    assert_expression_evaluation("(1 + 1) == 2", Ok(BoolValue(true)));
    assert_expression_evaluation("(1 + 1) == 2 * 1", Ok(BoolValue(true)));
    assert_expression_evaluation("(1 + 1) * 2 == 2 * 2", Ok(BoolValue(true)));
    assert_expression_evaluation("(1 + 1) * 2 + 2 == 6", Ok(BoolValue(true)));
}

#[test]
fn test_list_eval() {
    let text = "[1,2,3]";
    let tokens = tokenize(&text.to_string()).unwrap();
    let mut parser = Parser::new(&tokens);
    let ast = parser.parse_expression().unwrap();
    let result = ast.eval(&mut Env::new(), None);
    println!("{result:?}");
    assert_eq!(
        result,
        Ok(List(vec![IntValue(1), IntValue(2), IntValue(3)]))
    )
}

#[test]
fn test_list_access_eval() {
    fn get_list_access_ast(at: usize) -> tinylang::ast::expression::Expr {
        let text = format!("my_list[{at}]");
        let tokens = tokenize(&text).unwrap();
        let mut parser = Parser::new(&tokens);
        parser.parse_expression().unwrap()
    }

    let mut data = Env::new();
    let my_list = List(vec![IntValue(1), IntValue(2), IntValue(3)]);
    data.insert("my_list".to_string(), my_list);

    assert_eq!(Ok(IntValue(1)), get_list_access_ast(0).eval(&mut data, None));
    assert_eq!(Ok(IntValue(2)), get_list_access_ast(1).eval(&mut data, None));
    assert_eq!(Ok(IntValue(3)), get_list_access_ast(2).eval(&mut data, None));
}

#[test]
fn test_sum_of_list() {
    let text = "\
fn main() {
    a = [3];
    b = a + [1];
    return b
}
        ";
    let tokens = tokenize(&text.to_string()).unwrap();
    let mut parser = Parser::new(&tokens);
    let module = parser.parse_module();
    let result = module.run();
    println!("{result:?}");
    assert_eq!(result, Ok(List(vec![IntValue(3), IntValue(1)])));
}

#[test]
fn test_left_associative_subtraction() {
    // `a - b - c` denotes `(a - b) - c`.
    assert_ast_eval("10 - 3 - 2", 5);
    assert_ast_eval("100 / 10 / 2", 5);
}

#[test]
fn test_precedence_grouping() {
    assert_ast_eval("(1 + 2) * 3", 9);
    assert_ast_eval("1 + 2 * 3", 7);
}

#[test]
fn test_division() {
    assert_ast_eval("7 / 2", 3);
    assert_ast_eval("123 / 2", 61);
    assert_expression_evaluation("1 / 0", Err(EvalError::Error("Division by zero")));
}

#[test]
fn test_assignment_binds_and_returns_no_value() {
    let tokens = tokenize(&"a = 5".to_string()).unwrap();
    let ast = parse_expression(&tokens).unwrap();
    let mut env = Env::new();
    let result = ast.eval(&mut env, None);
    assert_eq!(result, Ok(Value::NoValue));
    assert_eq!(env.get(&"a".to_string()), Some(&IntValue(5)));
}

#[test]
fn test_error_aggregation_two_unknowns() {
    let tokens = tokenize(&"undefined_a + undefined_b".to_string()).unwrap();
    let ast = parse_expression(&tokens).unwrap();
    let result = ast.eval(&mut Env::new(), None);
    assert_eq!(
        result,
        Err(EvalError::MultipleError(vec![
            EvalError::UnknownVariable("undefined_a".to_string()),
            EvalError::UnknownVariable("undefined_b".to_string()),
        ]))
    );
}

#[test]
fn test_unknown_variable_error() {
    let tokens = tokenize(&"missing + 1".to_string()).unwrap();
    let ast = parse_expression(&tokens).unwrap();
    let result = ast.eval(&mut Env::new(), None);
    assert_eq!(
        result,
        Err(EvalError::UnknownVariable("missing".to_string()))
    );
}

#[test]
fn test_type_errors() {
    assert_expression_evaluation(
        "true + 1",
        Err(EvalError::Error("Binary operation not supported")),
    );
    assert_expression_evaluation(
        "-true",
        Err(EvalError::Error(
            "A negative express only applies to type Int and Float",
        )),
    );
    assert_expression_evaluation(
        "[1] - [2]",
        Err(EvalError::Error("Only addition is supported for list")),
    );
}

#[test]
fn test_list_access_errors() {
    let mut env = Env::new();
    env.insert("xs".to_string(), List(vec![IntValue(1)]));
    env.insert("n".to_string(), IntValue(0));

    let tokens = tokenize(&"xs[5]".to_string()).unwrap();
    let ast = parse_expression(&tokens).unwrap();
    assert_eq!(
        ast.eval(&mut env, None),
        Err(EvalError::Error("Index out of bounds"))
    );

    let tokens = tokenize(&"xs[true]".to_string()).unwrap();
    let ast = parse_expression(&tokens).unwrap();
    assert_eq!(
        ast.eval(&mut env, None),
        Err(EvalError::Error(
            "When accessing a list, the index must be of type int"
        ))
    );

    let tokens = tokenize(&"n[0]".to_string()).unwrap();
    let ast = parse_expression(&tokens).unwrap();
    assert_eq!(
        ast.eval(&mut env, None),
        Err(EvalError::Error("Only list can be accessed"))
    );
}

#[test]
fn test_call_without_module_fails() {
    let tokens = tokenize(&"foo(1)".to_string()).unwrap();
    let ast = parse_expression(&tokens).unwrap();
    assert_eq!(
        ast.eval(&mut Env::new(), None),
        Err(EvalError::Error("Module not found"))
    );
}

#[test]
fn test_cross_kind_comparison_order() {
    // integers rank below booleans, booleans below lists
    assert_expression_evaluation("1 < true", Ok(BoolValue(true)));
    assert_expression_evaluation("true < [1]", Ok(BoolValue(true)));
    assert_expression_evaluation("1 == true", Ok(BoolValue(false)));
    assert_expression_evaluation("false < true", Ok(BoolValue(true)));
    assert_expression_evaluation("[1,2] < [2]", Ok(BoolValue(true)));
    assert_expression_evaluation("[1] < [1,2]", Ok(BoolValue(true)));
}
