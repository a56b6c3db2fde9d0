use tinylang::ast::statement::StatementEval;
use tinylang::ast::expression::Value;
use tinylang::env::Env;
use tinylang::error::EvalError;
use tinylang::parser::{parse_statements, Parser};
use tinylang::token::tokenize;

fn assert_statement_eval(text: &str, expected: Result<StatementEval, EvalError>) {
    let tokens = tokenize(&text.to_string()).unwrap();
    let mut parser = Parser::new(&tokens);
    let statements = parser.parse_statements();
    assert_eq!(1, statements.len());
    let block = &statements[0];
    let result = block.eval(&mut Env::new(), None);
    assert_eq!(result, expected);
}

#[test]
fn test_statement_eval() {
    assert_statement_eval("a=1;", Ok(StatementEval::NoValue));
    assert_statement_eval("{a=1;a=2;}", Ok(StatementEval::NoValue));
    assert_statement_eval(
        "{a=1; b=1; return a + b}",
        Ok(StatementEval::Return(Value::IntValue(2))),
    );
}

#[test]
fn test_error_when_using_variable_out_of_compound_scope() {
    // a block cannot leak new bindings to its enclosing scope
    let file = "\
fn main() {
    a = 1;
    { b = 2; }
    return b;
}
        "
    .to_string();
    let tokens = tokenize(&file).unwrap();
    let mut parser = Parser::new(&tokens);
    let module = parser.parse_module();
    let result = module.run();
    println!("result = {result:?}");
    assert!(result.is_err());
    assert_eq!(result, Err(EvalError::UnknownVariable("b".to_string())));
}

#[test]
fn test_if_evaluation() {
    let text = "if (1) {return 3;}";
    let tokens = tokenize(&text.to_string());
    let ast = parse_statements(&tokens.unwrap());
    let statement = &ast[0];
    assert_eq!(
        statement.eval(&mut Env::new(), None),
        Ok(StatementEval::Return(Value::IntValue(3)))
    )
}

#[test]
fn test_else_evaluation() {
    let text = "if (0) {return 3;} else {return 4}";
    let tokens = tokenize(&text.to_string());
    let ast = parse_statements(&tokens.unwrap());
    let statement = &ast[0];
    assert_eq!(
        statement.eval(&mut Env::new(), None),
        Ok(StatementEval::Return(Value::IntValue(4)))
    )
}

#[test]
fn test_if_evaluation_with_undefined_var() {
    let text = "if (n) {return 3;}";
    let tokens = tokenize(&text.to_string());
    let ast = parse_statements(&tokens.unwrap());
    let statement = &ast[0];
    let result = statement.eval(&mut Env::new(), None);
    println!("{result:?}");
    assert!(matches!(result, Err(_)))
}

#[test]
fn test_return_statement_with_addition() {
    let text = "{return 1 + 1}";
    let tokens = tokenize(&text.to_string());
    let ast = parse_statements(&tokens.unwrap());
    let statement = &ast[0];
    println!("Getting ready");
    let result = statement.eval(&mut Env::new(), None);
    println!("{result:?}");
    assert_eq!(result, Ok(StatementEval::Return(Value::IntValue(2))));
}

#[test]
fn test_return_inside_compound() {
    let text = "
{
    i = 0;
    i = i + 1;
    return i;
}
        ";
    let tokens = tokenize(&text.to_string());
    let ast = parse_statements(&tokens.unwrap());
    let statement = &ast[0];
    let result = statement.eval(&mut Env::new(), None);
    println!("{result:?}");
    assert_eq!(result, Ok(StatementEval::Return(Value::IntValue(1))));
}

#[test]
fn test_simple_loop_eval() {
    let text = "
{
    i = 0;
    loop {
        i = i + 1;
        if (i == 10) { break; }
    }
    return i;
}
        ";
    let tokens = tokenize(&text.to_string());
    let ast = parse_statements(&tokens.unwrap());
    let statement = &ast[0];
    let result = statement.eval(&mut Env::new(), None);
    println!("{result:?}");
    assert_eq!(result, Ok(StatementEval::Return(Value::IntValue(10))));
}

#[test]
fn test_condition_type_errors() {
    let tokens = tokenize(&"if ([1]) { return 1; }".to_string()).unwrap();
    let ast = parse_statements(&tokens);
    assert_eq!(
        ast[0].eval(&mut Env::new(), None),
        Err(EvalError::Error("List can't be casted to bool"))
    );

    let tokens = tokenize(&"if (missing = 1) { return 1; }".to_string()).unwrap();
    let ast = parse_statements(&tokens);
    assert_eq!(
        ast[0].eval(&mut Env::new(), None),
        Err(EvalError::Error("'None' can't be casted to bool"))
    );
}

#[test]
fn test_break_statement_outcome() {
    let tokens = tokenize(&"break;".to_string()).unwrap();
    let ast = parse_statements(&tokens);
    assert_eq!(1, ast.len());
    assert_eq!(
        ast[0].eval(&mut Env::new(), None),
        Ok(StatementEval::Break)
    );
}

#[test]
fn test_loop_propagates_return() {
    let text = "
{
    i = 0;
    loop {
        i = i + 1;
        if (i == 3) { return i; }
    }
}
        ";
    let tokens = tokenize(&text.to_string()).unwrap();
    let ast = parse_statements(&tokens);
    assert_eq!(
        ast[0].eval(&mut Env::new(), None),
        Ok(StatementEval::Return(Value::IntValue(3)))
    );
}
