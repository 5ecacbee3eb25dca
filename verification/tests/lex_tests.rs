use jsparse::lex::{token_eq, Lex, LexError, Token};

#[test]
fn test_token_display() {
    let a = Token::For;
    println!("{}", a.text())
}

#[test]
fn test_keyword() {
    let input = "for(let i = 1; i < 10;i++)++";
    let mut lex = Lex::new(input.to_string());
    assert_eq!(lex.next(), Ok(Token::For));
}

#[test]
fn test_lex() {
    let input = " \n\n\nlet\n\n\n a\n\n\n =\n\n\n 1\n\n\n + \n\n\n2\n\n\n";
    let mut lex = Lex::new(input.to_string());

    assert_eq!(lex.next(), Ok(Token::Let));
    assert_eq!(lex.next(), Ok(Token::Variable("a".to_string())));
    assert_eq!(lex.next(), Ok(Token::Control("=".to_string())));
    assert_eq!(lex.next(), Ok(Token::Digit("1".to_string())));
    assert_eq!(lex.next(), Ok(Token::Control("+".to_string())));
    assert_eq!(lex.next(), Ok(Token::Digit("2".to_string())));
    assert_eq!(lex.next(), Ok(Token::EOF));
}

#[test]
fn test_lex_eof_idempotent() {
    let mut lex = Lex::new("a".to_string());
    assert_eq!(lex.next(), Ok(Token::Variable("a".to_string())));
    assert_eq!(lex.next(), Ok(Token::EOF));
    assert_eq!(lex.next(), Ok(Token::EOF));
    assert_eq!(lex.next(), Ok(Token::EOF));
}

#[test]
fn test_lex_operator_run_is_greedy() {
    let mut lex = Lex::new("a<=b".to_string());
    assert_eq!(lex.next(), Ok(Token::Variable("a".to_string())));
    assert_eq!(lex.next(), Ok(Token::Control("<=".to_string())));
    assert_eq!(lex.next(), Ok(Token::Variable("b".to_string())));
}

#[test]
fn test_lex_punctuation_single() {
    let mut lex = Lex::new("f(x);".to_string());
    assert_eq!(lex.next(), Ok(Token::Variable("f".to_string())));
    assert_eq!(lex.next(), Ok(Token::Control("(".to_string())));
    assert_eq!(lex.next(), Ok(Token::Variable("x".to_string())));
    assert_eq!(lex.next(), Ok(Token::Control(")".to_string())));
    assert_eq!(lex.next(), Ok(Token::Control(";".to_string())));
    assert_eq!(lex.next(), Ok(Token::EOF));
}

#[test]
fn test_lex_digit_underscores() {
    let mut lex = Lex::new("1_000 x9_".to_string());
    assert_eq!(lex.next(), Ok(Token::Digit("1_000".to_string())));
    assert_eq!(lex.next(), Ok(Token::Variable("x9_".to_string())));
}

#[test]
fn test_lex_keywords_resolve() {
    let mut lex = Lex::new("var const while whileX".to_string());
    assert_eq!(lex.next(), Ok(Token::Var));
    assert_eq!(lex.next(), Ok(Token::Const));
    assert_eq!(lex.next(), Ok(Token::While));
    assert_eq!(lex.next(), Ok(Token::Variable("whileX".to_string())));
}

#[test]
fn test_lex_unrecognized_character() {
    let mut lex = Lex::new("a $ b".to_string());
    assert_eq!(lex.next(), Ok(Token::Variable("a".to_string())));
    assert_eq!(
        lex.next(),
        Err(LexError { character: '$', offset: 2 })
    );
}

#[test]
fn test_token_text() {
    assert_eq!(Token::Control("+=".to_string()).text(), "+=".to_string());
    assert_eq!(Token::Variable("abc".to_string()).text(), "abc".to_string());
    assert_eq!(Token::Digit("12".to_string()).text(), "12".to_string());
    assert_eq!(Token::For.text(), "for".to_string());
    assert_eq!(Token::Let.text(), "let".to_string());
    assert_eq!(Token::While.text(), "while".to_string());
    assert_eq!(Token::EOF.text(), "EOF".to_string());
    assert_eq!(Token::LF.text(), "token".to_string());
}

#[test]
fn test_token_eq_helper() {
    assert!(token_eq(&Token::Let, &Token::Let));
    assert!(!token_eq(&Token::Let, &Token::Var));
    assert!(token_eq(
        &Token::Variable("x".to_string()),
        &Token::Variable("x".to_string())
    ));
    assert!(!token_eq(
        &Token::Variable("x".to_string()),
        &Token::Control("x".to_string())
    ));
}
