use tinylang::ast::expression::Value;
use tinylang::ast::expression::Value::{IntValue, List};
use tinylang::error::EvalError;
use tinylang::parser::parse_expression;
use tinylang::shell::Shell;
use tinylang::stdlib::Std;
use tinylang::token::tokenize;

#[test]
fn test_standard_lib_names() {
    assert!(Std::is_in_standard_lib(&"print".to_string()));
    assert!(Std::is_in_standard_lib(&"len".to_string()));
    assert!(!Std::is_in_standard_lib(&"main".to_string()));
    assert!(!Std::is_in_standard_lib(&"".to_string()));
}

#[test]
fn test_len_of_list() {
    let args = vec![List(vec![IntValue(1), IntValue(2), IntValue(3)])];
    assert_eq!(Std::eval(&"len".to_string(), &args), Ok(IntValue(3)));
    let empty = vec![List(vec![])];
    assert_eq!(Std::eval(&"len".to_string(), &empty), Ok(IntValue(0)));
}

#[test]
fn test_len_argument_errors() {
    let none: Vec<Value> = vec![];
    assert_eq!(
        Std::eval(&"len".to_string(), &none),
        Err(EvalError::Error(
            "The function `len` can only be used with a single argument"
        ))
    );
    let not_a_list = vec![IntValue(1)];
    assert_eq!(
        Std::eval(&"len".to_string(), &not_a_list),
        Err(EvalError::Error(
            "The function `len` can only be used a value of type `list`"
        ))
    );
}

#[test]
fn test_print_yields_no_value() {
    let args = vec![IntValue(1)];
    assert_eq!(Std::eval(&"print".to_string(), &args), Ok(Value::NoValue));
    assert_eq!(Std::eval(&"unknown".to_string(), &args), Ok(Value::NoValue));
}

#[test]
fn test_shell_keeps_bindings_between_evaluations() {
    let mut shell = Shell::new();

    let tokens = tokenize(&"a = 2".to_string()).unwrap();
    let ast = parse_expression(&tokens).unwrap();
    assert_eq!(shell.eval(&ast), Ok(Value::NoValue));

    let tokens = tokenize(&"a * 21".to_string()).unwrap();
    let ast = parse_expression(&tokens).unwrap();
    assert_eq!(shell.eval(&ast), Ok(IntValue(42)));
}

#[test]
fn test_shell_survives_a_failed_evaluation() {
    let mut shell = Shell::new();

    let tokens = tokenize(&"b + 1".to_string()).unwrap();
    let ast = parse_expression(&tokens).unwrap();
    assert!(shell.eval(&ast).is_err());

    let tokens = tokenize(&"b = 7".to_string()).unwrap();
    let ast = parse_expression(&tokens).unwrap();
    assert_eq!(shell.eval(&ast), Ok(Value::NoValue));

    let tokens = tokenize(&"b".to_string()).unwrap();
    let ast = parse_expression(&tokens).unwrap();
    assert_eq!(shell.eval(&ast), Ok(IntValue(7)));
}
