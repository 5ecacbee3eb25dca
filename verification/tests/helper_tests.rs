use jsparse::express::{expect, expect_keys, expect_keyword, is_ctrl, is_ctrl_word, skip_empty};
use jsparse::lex::Token;
use jsparse::parser::Parser;
use jsparse::wordlist::{skip_empty as wl_skip_empty, KeyWord, Word, WordList};

#[test]
fn test_is_ctrl_word() {
    assert!(is_ctrl_word(&Token::Control(";".to_string()), ";"));
    assert!(!is_ctrl_word(&Token::Control(";".to_string()), ","));
    assert!(!is_ctrl_word(&Token::Variable(";".to_string()), ";"));
    assert!(is_ctrl(&Token::Control("++".to_string())));
    assert!(!is_ctrl(&Token::EOF));
}

#[test]
fn test_expect() {
    assert!(expect(&Token::Control(")".to_string()), ")").is_ok());
    assert!(expect(&Token::Control("(".to_string()), ")").is_err());
    assert!(expect(&Token::EOF, ")").is_err());
}

#[test]
fn test_expect_keyword() {
    assert!(expect_keyword(&Token::For, Token::For).is_ok());
    assert!(expect_keyword(&Token::While, Token::For).is_err());
}

#[test]
fn test_expect_keys() {
    let keys = vec![Token::Var, Token::Let, Token::Const];
    assert_eq!(expect_keys(&Token::Let, &keys), Ok(Token::Let));
    assert!(expect_keys(&Token::For, &keys).is_err());
}

#[test]
fn test_skip_empty_leaves_solid_token() {
    // The lexer already swallows whitespace, so the first token stands.
    let mut parser = Parser::new("  a + b".to_string());
    let t = skip_empty(&mut parser);
    assert_eq!(t, Token::Variable("a".to_string()));
    assert_eq!(parser.current, Token::Variable("a".to_string()));
}

#[test]
fn test_word_list_cursor() {
    let mut wl = WordList {
        index: 0,
        list: vec![
            Word::new("let", KeyWord::Let),
            Word::new("a", KeyWord::Variable),
            Word::new("=", KeyWord::Control),
            Word::new("1", KeyWord::Digit),
        ],
    };
    assert_eq!(wl.current().unwrap().content, "let".to_string());
    assert_eq!(wl.peek().unwrap().content, "a".to_string());
    assert_eq!(wl.peek_n(2).unwrap().content, "=".to_string());
    assert_eq!(wl.next().unwrap().content, "a".to_string());
    wl.next1();
    assert_eq!(wl.current().unwrap().content, "=".to_string());
    wl.before();
    assert_eq!(wl.current().unwrap().content, "a".to_string());
    wl.index = 3;
    assert!(wl.next().is_none());
}

#[test]
fn test_word_list_peek_not_empty() {
    let wl = WordList {
        index: 0,
        list: vec![
            Word::new("\n", KeyWord::Control),
            Word::new(" ", KeyWord::Control),
            Word::new("x", KeyWord::Variable),
            Word::new("\t", KeyWord::Control),
        ],
    };
    // The probe lands on the first word that is not blank.
    assert_eq!(wl.peek_not_empty_n(0).unwrap().content, "x".to_string());
    assert_eq!(wl.peek_not_empty_n(1).unwrap().content, "x".to_string());
}

#[test]
fn test_word_list_skip_empty() {
    let mut wl = WordList {
        index: 0,
        list: vec![
            Word::new("\r", KeyWord::Control),
            Word::new("\n", KeyWord::Control),
            Word::new("for", KeyWord::For),
        ],
    };
    let w = wl_skip_empty(&mut wl).unwrap();
    assert_eq!(w.content, "for".to_string());
    assert_eq!(wl.index, 2);

    let mut empty = WordList { index: 0, list: vec![Word::new(" ", KeyWord::Control)] };
    assert!(wl_skip_empty(&mut empty).is_none());
    assert_eq!(empty.index, 1);
}
