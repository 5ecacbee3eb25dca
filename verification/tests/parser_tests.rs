use jsparse::error::ParseError;
use jsparse::lex::{LexError, Token};
use jsparse::parser::Parser;

#[test]
fn test1() {
    let mut parser = Parser::new(" \n let \n a \n = \n b\n ".to_string());

    assert_eq!(Token::Let, parser.current);
    parser.next();
    assert_eq!(Token::Variable("a".to_string()), parser.current);
}

#[test]
fn test_whitespace_only_is_empty_program() {
    // Inputs of whitespace and line breaks alone parse to no statements.
    let mut parser = Parser::new("  \r\n \n   ".to_string());
    assert_eq!(parser.parse(), Ok(vec![]));

    let mut parser2 = Parser::new("".to_string());
    assert_eq!(parser2.parse(), Ok(vec![]));
}

#[test]
fn test_lookahead_window() {
    let mut parser = Parser::new("a + b".to_string());
    assert_eq!(parser.current, Token::Variable("a".to_string()));
    assert_eq!(parser.lookahead, Token::Control("+".to_string()));
    parser.next();
    assert_eq!(parser.current, Token::Control("+".to_string()));
    assert_eq!(parser.lookahead, Token::Variable("b".to_string()));
}

#[test]
fn test_unrecognized_character_is_lex_error() {
    // "a $ b" fails with a lexical error, not a panic.
    let mut parser = Parser::new("a $ b".to_string());
    let r = parser.parse();
    assert_eq!(
        r,
        Err(ParseError::LexError(LexError { character: '$', offset: 2 }))
    );
}

#[test]
fn test_unsupported_operator() {
    // "==" has a precedence level but no parsing rule.
    let mut parser = Parser::new("a == b".to_string());
    let r = parser.parse();
    assert_eq!(
        r,
        Err(ParseError::UnsupportedOperator { found: Token::Control("==".to_string()) })
    );
}

#[test]
fn test_incomplete_construct() {
    // An unterminated group runs out of input before its `)`.
    let mut parser = Parser::new("(a".to_string());
    let r = parser.parse();
    assert_eq!(
        r,
        Err(ParseError::IncompleteConstruct { expected: ")".to_string() })
    );
}

#[test]
fn test_expression_start_error() {
    let mut parser = Parser::new("* a".to_string());
    let r = parser.parse();
    assert_eq!(
        r,
        Err(ParseError::UnexpectedToken {
            expected: "expression".to_string(),
            found: Token::Control("*".to_string()),
        })
    );
}

#[test]
fn test_two_statements_in_order() {
    let mut parser = Parser::new("a b".to_string());
    let ast = parser.parse().unwrap();
    assert_eq!(ast.len(), 2);
    assert_eq!(
        *ast[0],
        jsparse::node::Node::Identity { name: "a".to_string() }
    );
    assert_eq!(
        *ast[1],
        jsparse::node::Node::Identity { name: "b".to_string() }
    );
}

#[test]
fn test_error_text() {
    let e = ParseError::UnexpectedToken {
        expected: ";".to_string(),
        found: Token::Variable("i".to_string()),
    };
    assert_eq!(e.text(), "expect ;, find i".to_string());
    let l = ParseError::LexError(LexError { character: '$', offset: 2 });
    assert_eq!(l.text(), "Unrecognized character".to_string());
}
