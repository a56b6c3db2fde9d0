use tinylang::ast::expression::Value::{BoolValue, IntValue};
use tinylang::env::Env;
use tinylang::parser::Parser;
use tinylang::token::tokenize;

fn get_simple_file() -> String {
    "\
fn bar() {
    return 3;
}

fn foo() {
    return 5;
}

fn add(first, second) {
    return first + second;
}

fn passthrough(x) {
    return x;
}

fn main() {
    return add(foo(), bar());
}
"
    .to_string()
}

#[test]
fn test_eval_main() {
    let text = get_simple_file();
    let tokens = tokenize(&text).unwrap();
    let mut parser = Parser::new(&tokens);
    let module = parser.parse_module();
    let result = module.run();
    println!("{result:?}");
}

#[test]
fn test_fibonacci_recurrence() {
    // fib with the standard two-base-case recurrence
    let text = "\
fn fib(n) {
    if (n == 0) { return 0; }
    if (n == 1) { return 1; }
    return fib(n - 1) + fib(n - 2);
}
        ";
    let tokens = tokenize(&text.to_string()).unwrap();
    let mut parser = Parser::new(&tokens);
    let module = parser.parse_module();
    let func = module.get_function(&"fib".to_string()).unwrap();
    let cases: Vec<(i64, i64)> = vec![
        (0, 0),
        (1, 1),
        (2, 1),
        (3, 2),
        (4, 3),
        (5, 5),
        (6, 8),
        (10, 55),
        (15, 610),
    ];
    for (n, expected) in cases {
        let mut inputs = Env::new();
        inputs.insert("n".to_string(), IntValue(n));
        assert_eq!(func.eval(&mut inputs, Some(&module)), Ok(IntValue(expected)));
    }
}

#[test]
fn test_module_returns_true_or_false() {
    let text = "\
fn returns_true() {
    return 1 == 1;
}

fn returns_false() {
    return 1 == 2;
}
        ";
    let tokens = tokenize(&text.to_string()).unwrap();
    let mut parser = Parser::new(&tokens);
    let module = parser.parse_module();

    let returns_true = module.get_function(&"returns_true".to_string()).unwrap();
    assert_eq!(returns_true.eval(&mut Env::new(), Some(&module)), Ok(BoolValue(true)));

    let returns_false = module.get_function(&"returns_false".to_string()).unwrap();
    assert_eq!(returns_false.eval(&mut Env::new(), Some(&module)), Ok(BoolValue(false)));
}

#[test]
fn test_main_missing_is_an_error() {
    let text = "\
fn helper() {
    return 1;
}
        ";
    let tokens = tokenize(&text.to_string()).unwrap();
    let mut parser = Parser::new(&tokens);
    let module = parser.parse_module();
    assert_eq!(
        module.run(),
        Err(tinylang::error::EvalError::Error("Function main not found"))
    );
}

#[test]
fn test_duplicate_function_names_first_match_wins() {
    let text = "\
fn twice() {
    return 1;
}

fn twice() {
    return 2;
}
        ";
    let tokens = tokenize(&text.to_string()).unwrap();
    let mut parser = Parser::new(&tokens);
    let module = parser.parse_module();
    assert_eq!(2, module.number_of_functions());
    let twice = module.get_function(&"twice".to_string()).unwrap();
    assert_eq!(twice.eval(&mut Env::new(), Some(&module)), Ok(IntValue(1)));
}

#[test]
fn test_if_else_chain_in_module() {
    let text = "\
fn classify(n) {
    if (n < 10) { return 0; } else if (n < 20) { return 10; } else { return 20; }
}

fn main() {
    return classify(25);
}
        ";
    let tokens = tokenize(&text.to_string()).unwrap();
    let mut parser = Parser::new(&tokens);
    let module = parser.parse_module();
    assert_eq!(module.run(), Ok(IntValue(20)));
    let classify = module.get_function(&"classify".to_string()).unwrap();
    let mut inputs = Env::new();
    inputs.insert("n".to_string(), IntValue(5));
    assert_eq!(classify.eval(&mut inputs, Some(&module)), Ok(IntValue(0)));
    inputs.insert("n".to_string(), IntValue(15));
    assert_eq!(classify.eval(&mut inputs, Some(&module)), Ok(IntValue(10)));
}
