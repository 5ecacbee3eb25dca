use jsparse::error::ParseError;
use jsparse::exp::declaration_exp::build_let;
use jsparse::lex::Token;
use jsparse::node::Node::{BinaryExpression, EmptyStatement, ForStatement, Identity,
    NumericLiteral, UpdateExpression, VariableDeclaration, VariableDeclarator};
use jsparse::parser::Parser;

#[test]
fn test_comma() {
    let mut parser = Parser::new("let a = 3, b = 2".to_string());

    let result = build_let(&mut parser);
    println!("{result:#?}");
    assert!(result.is_ok());
}

#[test]
fn test_for() {
    let mut parser = Parser::new("for(let i =1; i < 10;i++) {}".to_string());
    let ast = parser.parse();
    println!("{ast:#?}");
    assert!(ast.is_ok());
    assert_eq!(parser.current, Token::EOF)
}

#[test]
fn test_for_empty() {
    let mut parser = Parser::new("for(let i =1; i < 10;i++);".to_string());
    let ast = parser.parse();
    assert!(ast.is_ok());
    assert_eq!(parser.current, Token::EOF)
}

#[test]
fn test_for_empty2() {
    let mut parser = Parser::new("for(let i =1; i < 10;i++);".to_string());
    let ast = parser.parse();
    assert!(ast.is_ok());
    assert_eq!(parser.current, Token::EOF)
}

#[test]
fn test_declaration_two_declarators() {
    // "let a = 1, b = 2": two declarators, numeric initializers "1" and "2".
    let mut parser = Parser::new("let a = 1, b = 2".to_string());
    let ast = parser.parse().unwrap();
    let expected = VariableDeclaration {
        kind: Token::Let,
        declarations: vec![
            Box::new(VariableDeclarator {
                id: Box::new(Identity { name: "a".to_string() }),
                init: Box::new(NumericLiteral { value: "1".to_string() }),
            }),
            Box::new(VariableDeclarator {
                id: Box::new(Identity { name: "b".to_string() }),
                init: Box::new(NumericLiteral { value: "2".to_string() }),
            }),
        ],
    };
    assert_eq!(ast.len(), 1);
    assert_eq!(*ast[0], expected);
}

#[test]
fn test_declaration_implicit_undefined() {
    // "let a": the initializer is the implicit-undefined identity node.
    let mut parser = Parser::new("let a".to_string());
    let ast = parser.parse().unwrap();
    let expected = VariableDeclaration {
        kind: Token::Let,
        declarations: vec![Box::new(VariableDeclarator {
            id: Box::new(Identity { name: "a".to_string() }),
            init: Box::new(Identity { name: "undefined".to_string() }),
        })],
    };
    assert_eq!(ast.len(), 1);
    assert_eq!(*ast[0], expected);
}

#[test]
fn test_declaration_var_and_const() {
    let mut parser = Parser::new("var x = 1 const y = 2".to_string());
    let ast = parser.parse().unwrap();
    assert_eq!(ast.len(), 2);
    match &*ast[0] {
        VariableDeclaration { kind, .. } => assert_eq!(*kind, Token::Var),
        other => panic!("not a declaration: {other:?}"),
    }
    match &*ast[1] {
        VariableDeclaration { kind, .. } => assert_eq!(*kind, Token::Const),
        other => panic!("not a declaration: {other:?}"),
    }
}

#[test]
fn test_declaration_needs_variable() {
    let mut parser = Parser::new("let 1 = 2".to_string());
    let r = parser.parse();
    assert_eq!(
        r,
        Err(ParseError::UnexpectedToken {
            expected: "Variable".to_string(),
            found: Token::Digit("1".to_string()),
        })
    );
}

#[test]
fn test_for_full_shape() {
    // "for(let i = 1; i < 10; i++) ;": declaration init, binary test,
    // update expression, empty body.
    let mut parser = Parser::new("for(let i = 1; i < 10; i++) ;".to_string());
    let ast = parser.parse().unwrap();
    let expected = ForStatement {
        init: Box::new(VariableDeclaration {
            kind: Token::Let,
            declarations: vec![Box::new(VariableDeclarator {
                id: Box::new(Identity { name: "i".to_string() }),
                init: Box::new(NumericLiteral { value: "1".to_string() }),
            })],
        }),
        test: Box::new(BinaryExpression {
            left: Box::new(Identity { name: "i".to_string() }),
            operator: "<".to_string(),
            right: Box::new(NumericLiteral { value: "10".to_string() }),
        }),
        update: Box::new(UpdateExpression {
            operator: "++".to_string(),
            prefix: false,
            argument: Box::new(Identity { name: "i".to_string() }),
        }),
        body: Box::new(EmptyStatement {}),
    };
    assert_eq!(ast.len(), 1);
    assert_eq!(*ast[0], expected);
}

#[test]
fn test_for_missing_semicolon() {
    // A missing `;` after the init clause names the expected token.
    let mut parser = Parser::new("for(let i = 1 i < 10; i++) {}".to_string());
    let r = parser.parse();
    assert_eq!(
        r,
        Err(ParseError::UnexpectedToken {
            expected: ";".to_string(),
            found: Token::Variable("i".to_string()),
        })
    );
}

#[test]
fn test_for_body_single_statement() {
    let mut parser = Parser::new("for(; i < 10; i++) { i++ }".to_string());
    let ast = parser.parse().unwrap();
    match &*ast[0] {
        ForStatement { init, body, .. } => {
            assert_eq!(**init, EmptyStatement {});
            assert_eq!(
                **body,
                UpdateExpression {
                    operator: "++".to_string(),
                    prefix: false,
                    argument: Box::new(Identity { name: "i".to_string() }),
                }
            );
        },
        other => panic!("not a for statement: {other:?}"),
    }
}

#[test]
fn test_for_all_clauses_empty() {
    let mut parser = Parser::new("for(;;);".to_string());
    let ast = parser.parse().unwrap();
    let expected = ForStatement {
        init: Box::new(EmptyStatement {}),
        test: Box::new(EmptyStatement {}),
        update: Box::new(EmptyStatement {}),
        body: Box::new(EmptyStatement {}),
    };
    assert_eq!(*ast[0], expected);
}
