use tinylang::ast::declaration::Declaration;
use tinylang::ast::expression::Expr;
use tinylang::ast::expression::Expr::{AssignmentExpr, BinaryExpr, ConstExpr};
use tinylang::ast::expression::Value;
use tinylang::ast::expression::Value::IntValue;
use tinylang::ast::statement::Statement;
use tinylang::ast::statement::Statement::SimpleStatement;
use tinylang::error::ParserError;
use tinylang::parser::{parse_expression, parse_statements, Parser};
use tinylang::token::{tokenize, Op};

fn assert_ast(text: &str, expected: Expr) {
    let tokens = tokenize(&text.to_string());
    println!("Building AST for <input> = <{text}>:");
    if let Ok(ast) = parse_expression(&tokens.unwrap()) {
        assert_eq!(ast, expected);
    } else {
        assert!(false);
    }
}

fn get_simple_file() -> String {
    "\
fn bar() {
    return 3;
}

fn foo() {
    return 5;
}

fn add(first, second) {
    return first + second;
}

fn passthrough(x) {
    return x;
}

fn main() {
    return add(foo(), bar());
}
"
    .to_string()
}

#[test]
fn test_basic_ast_expressions() {
    assert_ast(
        "1 + 2",
        BinaryExpr(
            Box::new(ConstExpr(IntValue(1))),
            Op::Plus,
            Box::new(ConstExpr(IntValue(2))),
        ),
    );
    assert_ast(
        "123 / 2",
        BinaryExpr(
            Box::new(ConstExpr(IntValue(123))),
            Op::Div,
            Box::new(ConstExpr(IntValue(2))),
        ),
    );
    assert_ast(
        "1 * 2",
        BinaryExpr(
            Box::new(ConstExpr(IntValue(1))),
            Op::Times,
            Box::new(ConstExpr(IntValue(2))),
        ),
    );
    assert_ast(
        "1 - 2",
        BinaryExpr(
            Box::new(ConstExpr(IntValue(1))),
            Op::Minus,
            Box::new(ConstExpr(IntValue(2))),
        ),
    );
}

#[test]
fn test_parse_single_statement() {
    let text = "a=1;".to_string();
    let tokens = tokenize(&text);
    let statements = parse_statements(&tokens.unwrap());
    assert_eq!(1, statements.len());
    println!("{statements:?}");
}

#[test]
fn test_parse_multiple_statements() {
    let text = "a=1;b=1;c=a+b;".to_string();
    let tokens = tokenize(&text);
    let statements = parse_statements(&tokens.unwrap());
    assert_eq!(3, statements.len());
    println!("{statements:#?}");
}

#[test]
fn test_parse_coumpond_statements() {
    let text = "{a=1;b=1;c=a+b;a+b;}".to_string();
    let tokens = tokenize(&text).unwrap();
    let mut parser = Parser::new(&tokens);
    if let Some(Statement::CompoundStatement(statements)) = parser.parse_compound_statement() {
        println!("result = {statements:?}");
        assert_eq!(statements.len(), 4);
        assert!(matches!(
            statements[0],
            Statement::SimpleStatement(AssignmentExpr(_, _))
        ));
        assert!(matches!(
            statements[1],
            Statement::SimpleStatement(AssignmentExpr(_, _))
        ));
        assert!(matches!(
            statements[2],
            Statement::SimpleStatement(AssignmentExpr(_, _))
        ));
        assert!(matches!(
            statements[3],
            Statement::SimpleStatement(BinaryExpr(_, Op::Plus, _))
        ));
    } else {
        println!("failed");
        assert!(false);
    }
}

#[test]
fn test_parse_coumpond_statements_new_line() {
    let text = "{a=1;\
        b=1;\
        c=a+b;\
        a+b;\
}"
    .to_string();
    let tokens = tokenize(&text).unwrap();
    let mut parser = Parser::new(&tokens);
    if let Some(Statement::CompoundStatement(statements)) = parser.parse_compound_statement() {
        println!("result = {statements:?}");
        assert_eq!(statements.len(), 4);
        assert!(matches!(
            statements[0],
            Statement::SimpleStatement(AssignmentExpr(_, _))
        ));
        assert!(matches!(
            statements[1],
            Statement::SimpleStatement(AssignmentExpr(_, _))
        ));
        assert!(matches!(
            statements[2],
            Statement::SimpleStatement(AssignmentExpr(_, _))
        ));
        assert!(matches!(
            statements[3],
            Statement::SimpleStatement(BinaryExpr(_, Op::Plus, _))
        ));
    } else {
        println!("failed");
        assert!(false);
    }
}

#[test]
fn test_parse_compound_with_return_statements() {
    let text = "{a=1; b=1; return a + b}".to_string();
    let tokens = tokenize(&text).unwrap();
    println!("{tokens:?}");
    let mut parser = Parser::new(&tokens);
    if let Some(Statement::CompoundStatement(statements)) = parser.parse_compound_statement() {
        println!("result = {statements:?}");
        assert_eq!(statements.len(), 3);
        assert!(matches!(
            statements[0],
            Statement::SimpleStatement(AssignmentExpr(_, _))
        ));
        assert!(matches!(
            statements[1],
            Statement::SimpleStatement(AssignmentExpr(_, _))
        ));
        assert!(matches!(statements[2], Statement::Return(_)));
    } else {
        println!("failed");
        assert!(false);
    }
}

#[test]
fn test_parse_function() {
    let text = "\
fn my_func_name(first, second) {
    a = first + second;
    return a + 1
}"
    .to_string();
    let tokens = tokenize(&text).unwrap();
    let mut parser = Parser::new(&tokens);
    match parser.parse_one_function() {
        Ok(Some(Declaration::Function(name, args, body))) => {
            println!("{name:?}");
            println!("{args:?}");
            println!("{body:?}");
            assert_eq!(name, "my_func_name".to_string());
            assert_eq!(args.len(), 2);
            assert_eq!(args[0].0, "first".to_string());
            assert_eq!(args[1].0, "second".to_string());
        }
        Ok(None) => assert!(false),
        Err(e) => {
            println!("Error = {e:?}");
            assert!(false);
        }
    }
    println!("{tokens:?}");
}

#[test]
fn test_parse_function_no_arguments() {
    let text = "\
fn my_func_name() {
    return 1
}"
    .to_string();
    let tokens = tokenize(&text).unwrap();
    let mut parser = Parser::new(&tokens);
    match parser.parse_one_function() {
        Ok(Some(Declaration::Function(name, args, body))) => {
            println!("{name:?}");
            println!("{args:?}");
            println!("{body:?}");
            assert_eq!(name, "my_func_name".to_string());
            assert_eq!(args.len(), 0);
        }
        Ok(None) => assert!(false),
        Err(e) => {
            println!("Error = {e:?}");
            assert!(false);
        }
    }
    println!("{tokens:?}");
}

#[test]
fn test_parse_file() {
    let text = get_simple_file();
    let tokens = tokenize(&text).unwrap();
    let mut parser = Parser::new(&tokens);
    let file = parser.parse_module();
    assert_eq!(5, file.number_of_functions());
}

#[test]
fn test_parse_function_call_in_function() {
    let text = "foo(bar(1))";
    let tokens = tokenize(&text.to_string());
    let ast = parse_expression(&tokens.unwrap()).unwrap();
    match ast {
        Expr::FunctionCall(name, args) => {
            assert_eq!(name, "foo".to_string());
            assert_eq!(1, args.len());
            match &args[0] {
                Expr::FunctionCall(name, args) => {
                    assert_eq!(*name, "bar".to_string());
                    assert_eq!(1, args.len());
                    assert!(matches!(&args[0], ConstExpr(_)))
                }
                _ => panic!("Inner argument must be a fuction"),
            }
        }
        _ => panic!("Not ok"),
    }
}

#[test]
fn test_parse_simple_if() {
    let text = "if (1) {foo();}";
    let tokens = tokenize(&text.to_string());
    let ast = parse_statements(&tokens.unwrap());
    // Check that we parsed an IF statement without else clause
    assert!(matches!(ast[0], Statement::If(_, _, None)))
}

#[test]
fn test_parse_simple_if_else() {
    let text = "if (1) {foo();} else {bar();}";
    let tokens = tokenize(&text.to_string());
    let ast = parse_statements(&tokens.unwrap());
    println!("{ast:?}");
    assert!(matches!(ast[0], Statement::If(_, _, Some(_))))
}

#[test]
fn test_parse_bool_value() {
    let text = "a = true;";
    let tokens = tokenize(&text.to_string());
    let ast = parse_statements(&tokens.unwrap());
    println!("{ast:?}");
    match &ast[0] {
        SimpleStatement(statement) => match statement {
            AssignmentExpr(_, expr) => {
                assert!(matches!(expr.as_ref(), ConstExpr(Value::BoolValue(_))))
            }
            _ => panic!("false"),
        },
        _ => panic!("false"),
    }
}

#[test]
fn test_parse_bool_comparison() {
    let text = "a == true";
    let tokens = tokenize(&text.to_string()).unwrap();
    let mut parser = Parser::new(&tokens);
    let ast = parser.parse_expression();
    println!("{ast:?}");
}

#[test]
fn test_parse_loop_and_break() {
    let text = "loop { break; }";
    let tokens = tokenize(&text.to_string()).unwrap();
    let ast = parse_statements(&tokens);
    assert_eq!(1, ast.len());
    match &ast[0] {
        Statement::Loop(body) => match body.as_ref() {
            Statement::CompoundStatement(ss) => {
                assert_eq!(1, ss.len());
                assert!(matches!(ss[0], Statement::Break));
            }
            _ => panic!("loop body must be compound"),
        },
        _ => panic!("expected a loop"),
    }
}

#[test]
fn test_parse_list_literal_and_access() {
    let tokens = tokenize(&"[1,2,3]".to_string()).unwrap();
    let ast = parse_expression(&tokens).unwrap();
    match ast {
        Expr::List(es) => assert_eq!(3, es.len()),
        _ => panic!("expected a list literal"),
    }
    let tokens = tokenize(&"xs[0]".to_string()).unwrap();
    let ast = parse_expression(&tokens).unwrap();
    assert!(matches!(ast, Expr::ListAccess(_, _)));
}

#[test]
fn test_parse_error_kinds() {
    // no alternative matches
    let tokens = tokenize(&"+".to_string()).unwrap();
    assert_eq!(parse_expression(&tokens), Err(ParserError::UnknownSyntax));
    // trailing unconsumed tokens
    let tokens = tokenize(&"1 1".to_string()).unwrap();
    assert_eq!(parse_expression(&tokens), Err(ParserError::TokensNotParsed));
    // malformed declarations
    let tokens = tokenize(&"fn 1".to_string()).unwrap();
    let mut parser = Parser::new(&tokens);
    assert!(matches!(
        parser.parse_one_function(),
        Err(ParserError::ExpectedDifferentToken(_))
    ));
    let tokens = tokenize(&"fn f(1) {}".to_string()).unwrap();
    let mut parser = Parser::new(&tokens);
    assert!(matches!(
        parser.parse_one_function(),
        Err(ParserError::WrongFunctionArgumentList)
    ));
    let tokens = tokenize(&"fn f() return 1;".to_string()).unwrap();
    let mut parser = Parser::new(&tokens);
    assert!(matches!(
        parser.parse_one_function(),
        Err(ParserError::WrongFunctionBody)
    ));
}
