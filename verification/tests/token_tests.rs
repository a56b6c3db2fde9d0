use tinylang::token::Op::{Div, Minus, Plus, Times};
use tinylang::token::Token::{
    Equal, Ident, If, Integer, LBrace, LPar, RBrace, RPar, Return, SemiColon, TokenComp, TokenOp,
};
use tinylang::token::{tokenize, Comp, Token};

fn assert_tokens(text: &str, tokens: Vec<Token>) {
    let computed = tokenize(&text.to_string()).unwrap();
    assert_eq!(computed, tokens)
}

#[test]
fn test_tokenizer() {
    assert_tokens(
        "+-*/",
        vec![TokenOp(Plus), TokenOp(Minus), TokenOp(Times), TokenOp(Div)],
    );
    assert_tokens(
        " + -      */    ",
        vec![TokenOp(Plus), TokenOp(Minus), TokenOp(Times), TokenOp(Div)],
    );
    assert_tokens(
        " (+) -      */    ",
        vec![
            LPar,
            TokenOp(Plus),
            RPar,
            TokenOp(Minus),
            TokenOp(Times),
            TokenOp(Div),
        ],
    );
    assert_tokens(
        "1+2-31",
        vec![
            Integer(1),
            TokenOp(Plus),
            Integer(2),
            TokenOp(Minus),
            Integer(31),
        ],
    );
    assert_tokens(
        "a = 1;",
        vec![Ident("a".to_string()), Equal, Integer(1), SemiColon],
    );
    assert_tokens("1+1", vec![Integer(1), TokenOp(Plus), Integer(1)]);
    assert_tokens(
        "1+1;",
        vec![Integer(1), TokenOp(Plus), Integer(1), SemiColon],
    );
    assert_tokens(
        "{1+1;}",
        vec![
            LBrace,
            Integer(1),
            TokenOp(Plus),
            Integer(1),
            SemiColon,
            RBrace,
        ],
    );
    assert_tokens("return 1;", vec![Return, Integer(1), SemiColon]);
    assert_tokens(
        "if (1) { return 1; }",
        vec![
            If,
            LPar,
            Integer(1),
            RPar,
            LBrace,
            Return,
            Integer(1),
            SemiColon,
            RBrace,
        ],
    );
}

#[test]
fn test_parse_double_char_operators() {
    assert_tokens("==", vec![TokenComp(Comp::Equal)]);

    assert_tokens("1 == 2", vec![Integer(1), TokenComp(Comp::Equal), Integer(2)]);

    assert_tokens("1 = 2", vec![Integer(1), Equal, Integer(2)]);

    assert_tokens("1 < 2", vec![Integer(1), TokenComp(Comp::Lower), Integer(2)]);

    assert_tokens(
        "1 <= 2",
        vec![Integer(1), TokenComp(Comp::LowerEq), Integer(2)],
    );
}

#[test]
fn test_comments() {
    assert_tokens(
        "\
1 // Something
// Hello
2
// Bla-Bla
3
            ",
        vec![Integer(1), Integer(2), Integer(3)],
    );
}

#[test]
fn test_string() {
    assert_tokens(
        "\"Hello world\"",
        vec![Token::String("Hello world".to_string())],
    );

    assert_tokens(
        "1 = \"Hello world\"",
        vec![Integer(1), Equal, Token::String("Hello world".to_string())],
    );
}

#[test]
fn test_unknown_character_fails() {
    let result = tokenize(&"a = #".to_string());
    assert_eq!(result, Err(tinylang::error::TokenError::UnknownChar('#')));
}

#[test]
fn test_empty_input() {
    assert_tokens("", vec![]);
    assert_tokens("   \t\r\n", vec![]);
}

#[test]
fn test_keywords_and_identifiers() {
    assert_tokens(
        "fn loop break else true false foo _bar x1",
        vec![
            Token::Fn,
            Token::Loop,
            Token::Break,
            Token::Else,
            Token::True,
            Token::False,
            Ident("foo".to_string()),
            Ident("_bar".to_string()),
            Ident("x1".to_string()),
        ],
    );
}

#[test]
fn test_comparison_operators_greater() {
    assert_tokens(
        "1 > 2 >= 3",
        vec![
            Integer(1),
            TokenComp(Comp::Higher),
            Integer(2),
            TokenComp(Comp::HigherEq),
            Integer(3),
        ],
    );
}

#[test]
fn test_unterminated_string_is_dropped() {
    assert_tokens("1 \"abc", vec![Integer(1)]);
}

#[test]
fn test_brackets_and_commas() {
    assert_tokens(
        "[1,2]",
        vec![
            Token::LBracket,
            Integer(1),
            Token::Comma,
            Integer(2),
            Token::RBracket,
        ],
    );
}
